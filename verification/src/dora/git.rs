//! Parsing the git output behind the DORA derivation.
//!
//! The git commands themselves run in the host program; every function here
//! turns their output into values, and returns a full result or an error:
//! there is no partial number and no zero-on-failure path.
use vstd::prelude::*;

use crate::lines::{fold_lines, fold_from, lemma_fold_ends, lemma_fold_step, LineError, LineErrorKind, LineOutcome};
use crate::order::{sort_by_keys, stable_sort_of, SortKey};
use crate::text::{
    from_chars, is_blank, lines_chars, lines_of, parse_i64, parse_i64_chars, slice_range,
    split_by, split_chars, split_once, starts_with, str_eq, str_starts_with, to_chars, trim,
    trim_chars, trim_str, views, find_in,
};

verus! {

/// The only `revert_pattern` value the derivation supports.
pub const SUPPORTED_REVERT_PATTERN: &'static str = "^revert(\\(|:)";

/// One deploy tag resolved to its deployed revision and deploy timestamp.
pub struct Tag {
    /// Short tag name (e.g. `v0.1.1`).
    pub name: String,
    /// Deployed revision: the peeled object for annotated tags, the ref
    /// itself for lightweight tags.
    pub rev: String,
    /// Commit timestamp of the deployed revision in Unix seconds.
    pub deploy_ts: i64,
}

/// Lead-time samples for one deploy range, plus data-quality counters.
pub struct LeadScan {
    /// `deploy_ts - commit_ts` per non-bot commit, clamped at zero.
    pub samples: Vec<i64>,
    /// Rows whose commit timestamp is after the deploy timestamp.
    pub clock_skew_commits: i64,
    /// First-parent commits in the range, including bot-authored ones.
    pub commits: i64,
}

/// Why git output could not be turned into values.
#[derive(Debug, Clone, Copy, PartialEq, Eq, Structural)]
pub enum GitErrorKind {
    /// A row did not have the expected tab-separated fields.
    UnexpectedRow,
    /// A timestamp field was not an integer.
    BadTimestamp,
    /// `git rev-parse HEAD` printed no revision.
    NoRevision,
    /// The policy names a revert predicate that is not implemented.
    UnsupportedRevertPattern,
}

/// A git-output failure and the text it concerns.
#[derive(Debug)]
pub struct GitError {
    pub kind: GitErrorKind,
    pub text: String,
}

impl GitError {
    /// The failure as a message naming the text it concerns.
    pub fn message(&self) -> (m: String)
        ensures
            self.kind == GitErrorKind::UnexpectedRow ==> m@ == "unexpected git row: "@ + self.text@,
            self.kind == GitErrorKind::BadTimestamp ==> m@ == "git produced a non-numeric timestamp: "@ + self.text@,
            self.kind == GitErrorKind::NoRevision ==> m@ == "git rev-parse HEAD produced no revision"@,
            self.kind == GitErrorKind::UnsupportedRevertPattern ==> m@ == "unsupported revert_pattern '"@ + self.text@
                + "': the only implemented predicate is '"@ + SUPPORTED_REVERT_PATTERN@ + "'"@,
    {
        match self.kind {
            GitErrorKind::UnexpectedRow => crate::text::concat("unexpected git row: ", self.text.as_str()),
            GitErrorKind::BadTimestamp => crate::text::concat("git produced a non-numeric timestamp: ", self.text.as_str()),
            GitErrorKind::NoRevision => crate::text::owned("git rev-parse HEAD produced no revision"),
            GitErrorKind::UnsupportedRevertPattern => {
                let mut m = crate::text::concat("unsupported revert_pattern '", self.text.as_str());
                crate::text::append_str(&mut m, "': the only implemented predicate is '");
                crate::text::append_str(&mut m, SUPPORTED_REVERT_PATTERN);
                crate::text::append_str(&mut m, "'");
                m
            },
        }
    }
}

/// The git error that a rejected line becomes.
pub open spec fn from_line_error(e: LineError) -> (GitErrorKind, Seq<char>) {
    (
        match e.kind {
            LineErrorKind::UnexpectedRow => GitErrorKind::UnexpectedRow,
            LineErrorKind::BadTimestamp => GitErrorKind::BadTimestamp,
        },
        e.text,
    )
}

/// The anchored conventional-commit revert predicate.
pub open spec fn revert_subject(subject: Seq<char>) -> bool {
    starts_with(subject, "revert("@) || starts_with(subject, "revert:"@)
}

/// The anchored conventional-commit revert predicate (`revert(` or
/// `revert:` at the start of the subject).
pub fn is_revert_subject(subject: &str) -> (b: bool)
    ensures
        b == revert_subject(subject@),
{
    str_starts_with(subject, "revert(") || str_starts_with(subject, "revert:")
}

/// Whether `git rev-parse --is-inside-work-tree` reported a work tree: the
/// command succeeded and printed `true` (surrounding whitespace ignored).
pub fn is_work_tree(succeeded: bool, stdout: &str) -> (b: bool)
    ensures
        b == (succeeded && trim(stdout@) == "true"@),
{
    if !succeeded {
        return false;
    }
    let t = trim_str(stdout);
    str_eq(t.as_str(), "true")
}

/// The `HEAD` revision from `git rev-parse HEAD` output: the trimmed text,
/// which must not be empty.
pub fn head_rev(out: &str) -> (r: Result<String, GitError>)
    ensures
        match r {
            Ok(rev) => rev@ == trim(out@) && rev@.len() > 0,
            Err(e) => trim(out@).len() == 0 && e.kind == GitErrorKind::NoRevision,
        },
{
    let v = to_chars(out);
    let t = trim_chars(&v);
    if t.len() == 0 {
        return Err(GitError { kind: GitErrorKind::NoRevision, text: String::new() });
    }
    Ok(from_chars(&t))
}

/// The commit timestamp printed by `git log -1 --format=%ct`.
pub fn commit_time(out: &str) -> (r: Result<i64, GitError>)
    ensures
        match r {
            Ok(t) => parse_i64(trim(out@)) == Some(t as int),
            Err(e) => parse_i64(trim(out@)) is None && e.kind == GitErrorKind::BadTimestamp && e.text@
                == out@,
        },
{
    let v = to_chars(out);
    let t = trim_chars(&v);
    match parse_i64_chars(&t) {
        Some(x) => Ok(x),
        None => Err(GitError { kind: GitErrorKind::BadTimestamp, text: from_chars(&v) }),
    }
}

/// One `for-each-ref` row: `<date>\t<name>\t<peeled>\t<object>`, giving the
/// name and the deployed revision (peeled object, else the object itself).
pub open spec fn tag_line(l: Seq<char>) -> LineOutcome<(Seq<char>, Seq<char>)> {
    if trim(l).len() == 0 {
        LineOutcome::Skip
    } else {
        let f = split_by(l, seq!['\t']);
        if f.len() == 4 {
            LineOutcome::Keep(
                (
                    f[1],
                    if f[2].len() == 0 {
                        f[3]
                    } else {
                        f[2]
                    },
                ),
            )
        } else {
            LineOutcome::Reject(LineError { kind: LineErrorKind::UnexpectedRow, text: l })
        }
    }
}

/// `tag_line` as a function value.
pub open spec fn tag_line_fn() -> spec_fn(Seq<char>) -> LineOutcome<(Seq<char>, Seq<char>)> {
    |l: Seq<char>| tag_line(l)
}

/// Views of owned string pairs.
pub open spec fn string_pairs(v: Seq<(String, String)>) -> Seq<(Seq<char>, Seq<char>)> {
    v.map_values(|p: (String, String)| (p.0@, p.1@))
}

/// Views of owned `(integer, string)` pairs.
pub open spec fn int_string_pairs(v: Seq<(i64, String)>) -> Seq<(int, Seq<char>)> {
    v.map_values(|p: (i64, String)| (p.0 as int, p.1@))
}

/// Views of owned `(string, integer)` pairs.
pub open spec fn string_int_pairs(v: Seq<(String, i64)>) -> Seq<(Seq<char>, int)> {
    v.map_values(|p: (String, i64)| (p.0@, p.1 as int))
}

/// Parses `git for-each-ref --format '%(creatordate:unix)%09%(refname:short)%09%(*objectname)%09%(objectname)'`
/// output into `(tag name, deployed revision)` pairs, skipping blank lines.
pub fn parse_tag_rows(out: &str) -> (r: Result<Vec<(String, String)>, GitError>)
    ensures
        match (r, fold_lines(lines_of(out@), tag_line_fn())) {
            (Ok(v), Ok(s)) => string_pairs(v@) == s,
            (Err(e), Err(le)) => (e.kind, e.text@) == from_line_error(le),
            _ => false,
        },
{
    let ghost f = tag_line_fn();
    let v = to_chars(out);
    let lines = lines_chars(&v);
    let tab = vec!['\t'];
    proof {
        assert(tab@ =~= seq!['\t']);
        lemma_fold_ends(lines_of(out@), f, Seq::empty());
    }
    let mut acc: Vec<(String, String)> = Vec::new();
    let mut i: usize = 0;
    while i < lines.len()
        invariant
            i <= lines.len(),
            views(lines@) == lines_of(out@),
            tab@ == seq!['\t'],
            f == tag_line_fn(),
            fold_from(string_pairs(acc@), lines_of(out@), i as int, f) == fold_lines(lines_of(out@), f),
        decreases lines.len() - i,
    {
        let line = &lines[i];
        proof {
            assert(views(lines@)[i as int] == line@);
            lemma_fold_step(string_pairs(acc@), lines_of(out@), i as int, f);
        }
        if is_blank(line) {
            proof {
                assert(f(line@) == tag_line(line@));
                assert(tag_line(line@) is Skip);
            }
            i = i + 1;
            continue;
        }
        let fields = split_chars(line, &tab);
        if fields.len() != 4 {
            proof {
                assert(views(fields@).len() == fields@.len());
                assert(f(line@) == tag_line(line@));
                assert(tag_line(line@) == LineOutcome::<(Seq<char>, Seq<char>)>::Reject(LineError { kind: LineErrorKind::UnexpectedRow, text: line@ }));
            }
            return Err(GitError { kind: GitErrorKind::UnexpectedRow, text: from_chars(line) });
        }
        proof {
            assert(views(fields@)[1] == fields@[1]@);
            assert(views(fields@)[2] == fields@[2]@);
            assert(views(fields@)[3] == fields@[3]@);
        }
        let name = from_chars(&fields[1]);
        let rev = if fields[2].len() == 0 {
            from_chars(&fields[3])
        } else {
            from_chars(&fields[2])
        };
        let ghost before = acc@;
        acc.push((name, rev));
        proof {
            assert(string_pairs(acc@) =~= string_pairs(before).push((name@, rev@)));
        }
        i = i + 1;
    }
    Ok(acc)
}

/// Orders resolved deploy tags by deploy timestamp, then name (the
/// deployment order the derivation needs, independent of tagging dates).
pub fn matching_tags(tags: Vec<Tag>) -> (out: Vec<Tag>)
    ensures
        exists|p: Seq<int>| #[trigger] stable_sort_of(out@, tags@, p, tag_key_fn()),
{
    let mut keys: Vec<SortKey> = Vec::new();
    let mut i: usize = 0;
    while i < tags.len()
        invariant
            i <= tags.len(),
            keys.len() == i,
            forall|k: int| 0 <= k < i ==> #[trigger] keys@[k].view_key() == tag_key_fn()(tags@[k]),
        decreases tags.len() - i,
    {
        keys.push(SortKey { num: tags[i].deploy_ts, text: to_chars(tags[i].name.as_str()) });
        i = i + 1;
    }
    let (out, Ghost(p)) = sort_by_keys(tags, keys, Ghost(tag_key_fn()));
    out
}

/// `tag_key` as a function value.
pub open spec fn tag_key_fn() -> spec_fn(Tag) -> (int, Seq<char>) {
    |t: Tag| tag_key(t)
}

/// The sort key of a tag: deploy timestamp, then name.
pub open spec fn tag_key(t: Tag) -> (int, Seq<char>) {
    (t.deploy_ts as int, t.name@)
}

/// One `git log --first-parent --format=%ct%x09%ae` row: the commit
/// timestamp and the author email (the rest of the line after the first tab).
pub open spec fn parent_line(l: Seq<char>) -> LineOutcome<(int, Seq<char>)> {
    if trim(l).len() == 0 {
        LineOutcome::Skip
    } else {
        match split_once(l, '\t') {
            None => LineOutcome::Reject(LineError { kind: LineErrorKind::UnexpectedRow, text: l }),
            Some((ts, email)) => match parse_i64(ts) {
                Some(t) => LineOutcome::Keep((t, email)),
                None => LineOutcome::Reject(LineError { kind: LineErrorKind::BadTimestamp, text: ts }),
            },
        }
    }
}

/// `parent_line` as a function value.
pub open spec fn parent_line_fn() -> spec_fn(Seq<char>) -> LineOutcome<(int, Seq<char>)> {
    |l: Seq<char>| parent_line(l)
}

/// Splits `line` at its first tab.
fn split_tab(line: &[char]) -> (r: Option<(Vec<char>, Vec<char>)>)
    ensures
        match (r, split_once(line@, '\t')) {
            (Some((a, b)), Some((x, y))) => a@ == x && b@ == y,
            (None, None) => true,
            _ => false,
        },
{
    let tab = vec!['\t'];
    proof {
        assert(tab@ =~= seq!['\t']);
        assert(line@.skip(0) =~= line@);
    }
    match find_in(line, 0, &tab) {
        Some(j) => {
            let a = slice_range(line, 0, j);
            let b = slice_range(line, j + 1, line.len());
            proof {
                assert(a@ =~= line@.take(j as int));
                assert(b@ =~= line@.skip(j + 1));
            }
            Some((a, b))
        },
        None => None,
    }
}

/// Parses `git log --first-parent --format=%ct%x09%ae` output into
/// `(commit timestamp, author email)` rows, skipping blank lines.
pub fn first_parent_rows(out: &str) -> (r: Result<Vec<(i64, String)>, GitError>)
    ensures
        match (r, fold_lines(lines_of(out@), parent_line_fn())) {
            (Ok(v), Ok(s)) => int_string_pairs(v@) == s,
            (Err(e), Err(le)) => (e.kind, e.text@) == from_line_error(le),
            _ => false,
        },
{
    let ghost f = parent_line_fn();
    let v = to_chars(out);
    let lines = lines_chars(&v);
    proof {
        lemma_fold_ends(lines_of(out@), f, Seq::empty());
    }
    let mut acc: Vec<(i64, String)> = Vec::new();
    let mut i: usize = 0;
    while i < lines.len()
        invariant
            i <= lines.len(),
            views(lines@) == lines_of(out@),
            f == parent_line_fn(),
            fold_from(int_string_pairs(acc@), lines_of(out@), i as int, f) == fold_lines(lines_of(out@), f),
        decreases lines.len() - i,
    {
        let line = &lines[i];
        proof {
            assert(views(lines@)[i as int] == line@);
            lemma_fold_step(int_string_pairs(acc@), lines_of(out@), i as int, f);
            assert(f(line@) == parent_line(line@));
        }
        if is_blank(line) {
            i = i + 1;
            continue;
        }
        let (ts, email) = match split_tab(line) {
            Some(p) => p,
            None => {
                return Err(GitError { kind: GitErrorKind::UnexpectedRow, text: from_chars(line) });
            },
        };
        let t = match parse_i64_chars(&ts) {
            Some(t) => t,
            None => {
                return Err(GitError { kind: GitErrorKind::BadTimestamp, text: from_chars(&ts) });
            },
        };
        let email_s = from_chars(&email);
        let ghost before = acc@;
        acc.push((t, email_s));
        proof {
            assert(int_string_pairs(acc@) =~= int_string_pairs(before).push((t as int, email_s@)));
        }
        i = i + 1;
    }
    Ok(acc)
}

/// Lead-time samples of `rows` for a deploy at `deploy`: `deploy - ts`
/// clamped at zero, for every row whose author is not an allowlisted bot.
pub open spec fn lead_samples(rows: Seq<(int, Seq<char>)>, deploy: int, bots: Seq<Seq<char>>) -> Seq<int>
    decreases rows.len(),
{
    if rows.len() == 0 {
        Seq::empty()
    } else {
        let rest = lead_samples(rows.drop_last(), deploy, bots);
        let (ts, email) = rows.last();
        if bots.contains(email) {
            rest
        } else {
            rest.push(if deploy - ts > 0 {
                deploy - ts
            } else {
                0
            })
        }
    }
}

/// Rows timestamped after the deploy.
pub open spec fn skew_count(rows: Seq<(int, Seq<char>)>, deploy: int) -> int
    decreases rows.len(),
{
    if rows.len() == 0 {
        0
    } else {
        skew_count(rows.drop_last(), deploy) + if rows.last().0 > deploy {
            1int
        } else {
            0
        }
    }
}

proof fn lemma_skew_bound(rows: Seq<(int, Seq<char>)>, deploy: int)
    ensures
        0 <= skew_count(rows, deploy) <= rows.len(),
    decreases rows.len(),
{
    if rows.len() > 0 {
        lemma_skew_bound(rows.drop_last(), deploy);
    }
}

/// Lead-time samples for one deploy range, plus the clock-skew row count.
///
/// `rows` are the range's first-parent `(commit timestamp, author email)`
/// rows in ascending commit order; every non-bot row yields one sample
/// `deploy_ts - ts`, clamped at zero, and rows after the deploy are counted
/// as clock skew (data-quality evidence, not a sample).
pub fn lead_scan(rows: &[(i64, String)], deploy_ts: i64, bot_allowlist: &[String]) -> (scan: LeadScan)
    requires
        forall|k: int| 0 <= k < rows.len() ==> i64::MIN <= deploy_ts - (#[trigger] rows@[k]).0 <= i64::MAX,
        rows.len() <= i64::MAX,
    ensures
        scan.samples@.map_values(|x: i64| x as int) == lead_samples(
            int_string_pairs(rows@),
            deploy_ts as int,
            crate::text::string_views(bot_allowlist@),
        ),
        scan.clock_skew_commits == skew_count(int_string_pairs(rows@), deploy_ts as int),
        scan.commits == rows.len(),
{
    let ghost rv = int_string_pairs(rows@);
    let ghost bots = crate::text::string_views(bot_allowlist@);
    let mut samples: Vec<i64> = Vec::new();
    let mut skew: i64 = 0;
    let mut i: usize = 0;
    while i < rows.len()
        invariant
            i <= rows.len(),
            rows.len() <= i64::MAX,
            rv == int_string_pairs(rows@),
            bots == crate::text::string_views(bot_allowlist@),
            forall|k: int| 0 <= k < rows.len() ==> i64::MIN <= deploy_ts - (#[trigger] rows@[k]).0 <= i64::MAX,
            samples@.map_values(|x: i64| x as int) == lead_samples(rv.take(i as int), deploy_ts as int, bots),
            skew == skew_count(rv.take(i as int), deploy_ts as int),
        decreases rows.len() - i,
    {
        let ts = rows[i].0;
        proof {
            assert(rv.take(i + 1).drop_last() =~= rv.take(i as int));
            assert(rv.take(i + 1).last() == (ts as int, rows@[i as int].1@));
            lemma_skew_bound(rv.take(i as int), deploy_ts as int);
        }
        if ts > deploy_ts {
            skew = skew + 1;
        }
        if !crate::text::list_has(bot_allowlist, rows[i].1.as_str()) {
            let d = deploy_ts - ts;
            let sample = if d > 0 {
                d
            } else {
                0
            };
            let ghost before = samples@;
            samples.push(sample);
            proof {
                assert(samples@.map_values(|x: i64| x as int) =~= before.map_values(|x: i64| x as int).push(sample as int));
            }
        }
        i = i + 1;
    }
    proof {
        assert(rv.take(rows.len() as int) =~= rv);
    }
    LeadScan { samples, clock_skew_commits: skew, commits: rows.len() as i64 }
}

/// One `git log --first-parent --format=%H%x09%ct%x09%s` row: kept as
/// `(sha, timestamp)` when the subject is a conventional revert.
pub open spec fn revert_line(l: Seq<char>) -> LineOutcome<(Seq<char>, int)> {
    if trim(l).len() == 0 {
        LineOutcome::Skip
    } else {
        match split_once(l, '\t') {
            None => LineOutcome::Reject(LineError { kind: LineErrorKind::UnexpectedRow, text: l }),
            Some((sha, rest)) => match split_once(rest, '\t') {
                None => LineOutcome::Reject(LineError { kind: LineErrorKind::UnexpectedRow, text: l }),
                Some((ts, subject)) => if !revert_subject(subject) {
                    LineOutcome::Skip
                } else {
                    match parse_i64(ts) {
                        Some(t) => LineOutcome::Keep((sha, t)),
                        None => LineOutcome::Reject(LineError { kind: LineErrorKind::BadTimestamp, text: ts }),
                    }
                },
            },
        }
    }
}

/// `revert_line` as a function value.
pub open spec fn revert_line_fn() -> spec_fn(Seq<char>) -> LineOutcome<(Seq<char>, int)> {
    |l: Seq<char>| revert_line(l)
}

/// Rejects every `revert_pattern` but the single supported form.
pub fn check_revert_pattern(pattern: &str) -> (r: Result<(), GitError>)
    ensures
        r is Ok <==> pattern@ == SUPPORTED_REVERT_PATTERN@,
        r matches Err(e) ==> e.kind == GitErrorKind::UnsupportedRevertPattern && e.text@ == pattern@,
{
    if str_eq(pattern, SUPPORTED_REVERT_PATTERN) {
        Ok(())
    } else {
        Err(GitError { kind: GitErrorKind::UnsupportedRevertPattern, text: crate::text::owned(pattern) })
    }
}

/// Revert commits in a range as `(sha, commit timestamp)`, from the
/// `git log --first-parent --format=%H%x09%ct%x09%s` output of that range.
///
/// `pattern` is the policy's `revert_pattern` and is checked first, so a
/// caller that bypasses the policy loader still cannot silently ignore it.
pub fn reverts(pattern: &str, out: &str) -> (r: Result<Vec<(String, i64)>, GitError>)
    ensures
        pattern@ != SUPPORTED_REVERT_PATTERN@ ==> (r matches Err(e) && e.kind
            == GitErrorKind::UnsupportedRevertPattern),
        pattern@ == SUPPORTED_REVERT_PATTERN@ ==> match (r, fold_lines(lines_of(out@), revert_line_fn())) {
            (Ok(v), Ok(s)) => string_int_pairs(v@) == s,
            (Err(e), Err(le)) => (e.kind, e.text@) == from_line_error(le),
            _ => false,
        },
{
    check_revert_pattern(pattern)?;
    let ghost f = revert_line_fn();
    let v = to_chars(out);
    let lines = lines_chars(&v);
    proof {
        lemma_fold_ends(lines_of(out@), f, Seq::empty());
    }
    let mut acc: Vec<(String, i64)> = Vec::new();
    let mut i: usize = 0;
    while i < lines.len()
        invariant
            i <= lines.len(),
            views(lines@) == lines_of(out@),
            f == revert_line_fn(),
            pattern@ == SUPPORTED_REVERT_PATTERN@,
            fold_from(string_int_pairs(acc@), lines_of(out@), i as int, f) == fold_lines(lines_of(out@), f),
        decreases lines.len() - i,
    {
        let line = &lines[i];
        proof {
            assert(views(lines@)[i as int] == line@);
            lemma_fold_step(string_int_pairs(acc@), lines_of(out@), i as int, f);
            assert(f(line@) == revert_line(line@));
        }
        if is_blank(line) {
            i = i + 1;
            continue;
        }
        let (sha, rest) = match split_tab(line) {
            Some(p) => p,
            None => {
                return Err(GitError { kind: GitErrorKind::UnexpectedRow, text: from_chars(line) });
            },
        };
        let (ts, subject) = match split_tab(&rest) {
            Some(p) => p,
            None => {
                return Err(GitError { kind: GitErrorKind::UnexpectedRow, text: from_chars(line) });
            },
        };
        let subject_s = from_chars(&subject);
        if !is_revert_subject(subject_s.as_str()) {
            i = i + 1;
            continue;
        }
        let t = match parse_i64_chars(&ts) {
            Some(t) => t,
            None => {
                return Err(GitError { kind: GitErrorKind::BadTimestamp, text: from_chars(&ts) });
            },
        };
        let sha_s = from_chars(&sha);
        let ghost before = acc@;
        acc.push((sha_s, t));
        proof {
            assert(string_int_pairs(acc@) =~= string_int_pairs(before).push((sha_s@, t as int)));
        }
        i = i + 1;
    }
    Ok(acc)
}

} // verus!
