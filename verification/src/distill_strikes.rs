//! Strike-driven skill scaffolding: which recorded failure signatures have
//! reached the steering-loop threshold, the skill each one names, and what a
//! scaffold run does for it.
//!
//! The scaffold is generated from the signature text, never hand-written
//! prose, so it cannot describe a fix that was never observed. Existing
//! skills are never overwritten.
use vstd::prelude::*;

use crate::order::{sort_by_keys, stable_sort_of, SortKey};
use crate::paths::{join_path, joined};
use crate::text::{
    append_str, ascii_lower, char_ascii_lower, char_is_ascii_alnum, from_chars, i64_to_string,
    int_repr, is_ascii_alnum, owned, push_char, str_eq, str_starts_with, starts_with, to_chars,
};

verus! {

/// A recorded failure signature and how often it struck.
pub struct ErrorSignature {
    /// Row id.
    pub id: i64,
    /// Failure fingerprint (`sensor:<name>` for sensor failures).
    pub signature: String,
    /// Task the strikes were recorded under, if any.
    pub task_id: Option<i64>,
    /// Consecutive strikes recorded.
    pub attempt_count: i64,
    /// Last diagnostic message, if any.
    pub message: Option<String>,
    /// When the signature was first recorded (Unix seconds).
    pub created_at: i64,
}

/// What a strike-driven scaffold run did for one signature.
#[derive(Debug, Clone, Copy, PartialEq, Eq, Structural)]
pub enum ScaffoldAction {
    /// Files were written.
    Wrote,
    /// Files would be written, but `--dry-run` was set.
    WouldWrite,
    /// Skipped because the skill directory already exists.
    ExistingSkill,
}

impl ScaffoldAction {
    /// Stable label used in JSON output.
    pub fn label(self) -> (s: &'static str)
        ensures
            self == ScaffoldAction::Wrote ==> s@ == "wrote"@,
            self == ScaffoldAction::WouldWrite ==> s@ == "would-write"@,
            self == ScaffoldAction::ExistingSkill ==> s@ == "existing-skill"@,
    {
        match self {
            ScaffoldAction::Wrote => "wrote",
            ScaffoldAction::WouldWrite => "would-write",
            ScaffoldAction::ExistingSkill => "existing-skill",
        }
    }

    /// Verb used in the text report.
    pub fn verb(self) -> (s: &'static str)
        ensures
            self == ScaffoldAction::Wrote ==> s@ == "scaffolded"@,
            self == ScaffoldAction::WouldWrite ==> s@ == "would scaffold"@,
            self == ScaffoldAction::ExistingSkill ==> s@ == "skipped existing skill"@,
    {
        match self {
            ScaffoldAction::Wrote => "scaffolded",
            ScaffoldAction::WouldWrite => "would scaffold",
            ScaffoldAction::ExistingSkill => "skipped existing skill",
        }
    }
}

/// Outcome of a strike-driven scaffold run for one signature.
pub struct ScaffoldOutcome {
    /// Skill name the scaffold was written for.
    pub skill: String,
    /// What happened for this signature.
    pub action: ScaffoldAction,
    /// Number of strikes that triggered the scaffold.
    pub strikes: i64,
    /// Files created or that would be created.
    pub files: Vec<String>,
}

impl ScaffoldOutcome {
    /// Whether files exist on disk as a result of this run.
    pub fn written(&self) -> (b: bool)
        ensures
            b == (self.action == ScaffoldAction::Wrote),
    {
        self.action == ScaffoldAction::Wrote
    }
}

/// The signatures at or past the threshold, in input order.
pub open spec fn at_threshold(sigs: Seq<ErrorSignature>, threshold: int) -> Seq<ErrorSignature>
    decreases sigs.len(),
{
    if sigs.len() == 0 {
        seq![]
    } else {
        let r = at_threshold(sigs.drop_last(), threshold);
        if sigs.last().attempt_count >= threshold {
            r.push(sigs.last())
        } else {
            r
        }
    }
}

/// Report order of striking signatures: most strikes first, then signature.
pub open spec fn strike_key_fn<'a>() -> spec_fn(&'a ErrorSignature) -> (int, Seq<char>) {
    |s: &'a ErrorSignature| (-1 - s.attempt_count, s.signature@)
}

/// The referenced values of a list of references.
pub open spec fn derefs<'a>(v: Seq<&'a ErrorSignature>) -> Seq<ErrorSignature> {
    v.map_values(|r: &'a ErrorSignature| *r)
}

/// Returns the signatures with at least `threshold` strikes, most strikes
/// first and then by signature (equal keys keep their input order).
pub fn striking_signatures(signatures: &[ErrorSignature], threshold: i64) -> (out: Vec<&ErrorSignature>)
    ensures
        exists|kept: Seq<&ErrorSignature>, p: Seq<int>|
            #[trigger] stable_sort_of(out@, kept, p, strike_key_fn()) && derefs(kept) == at_threshold(
                signatures@,
                threshold as int,
            ),
{
    let mut kept: Vec<&ErrorSignature> = Vec::new();
    let mut keys: Vec<SortKey> = Vec::new();
    let mut i: usize = 0;
    while i < signatures.len()
        invariant
            i <= signatures.len(),
            kept.len() == keys.len(),
            derefs(kept@) == at_threshold(signatures@.take(i as int), threshold as int),
            forall|k: int| 0 <= k < kept.len() ==> #[trigger] keys@[k].view_key() == strike_key_fn()(kept@[k]),
        decreases signatures.len() - i,
    {
        proof {
            assert(signatures@.take(i + 1).drop_last() =~= signatures@.take(i as int));
        }
        let s = &signatures[i];
        if s.attempt_count >= threshold {
            let ghost before = kept@;
            kept.push(s);
            keys.push(SortKey { num: -1 - s.attempt_count, text: to_chars(s.signature.as_str()) });
            proof {
                assert(derefs(kept@) =~= derefs(before).push(*s));
            }
        }
        i = i + 1;
    }
    proof {
        assert(signatures@.take(i as int) =~= signatures@);
    }
    let ghost kept_items = kept@;
    let (out, Ghost(p)) = sort_by_keys(kept, keys, Ghost(strike_key_fn()));
    proof {
        assert(stable_sort_of(out@, kept_items, p, strike_key_fn()));
    }
    out
}

/// The namespace prefix stripped from sensor signatures.
pub open spec fn sensor_prefix() -> Seq<char> {
    seq!['s', 'e', 'n', 's', 'o', 'r', ':']
}

/// The scan over a signature's characters: the slug so far, and whether it
/// ends in a dash this scan wrote. Alphanumerics are kept lowercased; any run
/// of other characters becomes one dash, and never a leading one.
pub open spec fn slug_scan(s: Seq<char>) -> (Seq<char>, bool)
    decreases s.len(),
{
    if s.len() == 0 {
        (seq![], false)
    } else {
        let acc = slug_scan(s.drop_last());
        let ch = s.last();
        if is_ascii_alnum(ch) {
            (acc.0.push(ascii_lower(ch)), false)
        } else if !acc.1 && acc.0.len() > 0 {
            (acc.0.push('-'), true)
        } else {
            acc
        }
    }
}

/// `s` without leading dashes.
pub open spec fn drop_leading_dashes(s: Seq<char>) -> Seq<char>
    decreases s.len(),
{
    if s.len() > 0 && s[0] == '-' {
        drop_leading_dashes(s.drop_first())
    } else {
        s
    }
}

/// `s` without trailing dashes.
pub open spec fn drop_trailing_dashes(s: Seq<char>) -> Seq<char>
    decreases s.len(),
{
    if s.len() > 0 && s.last() == '-' {
        drop_trailing_dashes(s.drop_last())
    } else {
        s
    }
}

/// A signature without its `sensor:` namespace.
pub open spec fn slug_base(sig: Seq<char>) -> Seq<char> {
    if starts_with(sig, sensor_prefix()) {
        sig.subrange(7, sig.len() as int)
    } else {
        sig
    }
}

/// The slug a signature names: the `sensor:` namespace stripped, the rest
/// slugged and trimmed of dashes, and `sensor-strike` when nothing is left.
pub open spec fn signature_slug(sig: Seq<char>) -> Seq<char> {
    let base = slug_base(sig);
    let slug = drop_trailing_dashes(drop_leading_dashes(slug_scan(base).0));
    if slug.len() == 0 {
        seq!['s', 'e', 'n', 's', 'o', 'r', '-', 's', 't', 'r', 'i', 'k', 'e']
    } else {
        slug
    }
}

/// A character a slug may hold: a lowercase ASCII letter, a digit, or `-`.
pub open spec fn slug_char(c: char) -> bool {
    ('a' <= c && c <= 'z') || ('0' <= c && c <= '9') || c == '-'
}

/// A well-formed slug: non-empty, only slug characters, no leading or
/// trailing dash, and no two dashes in a row.
pub open spec fn slug_clean(s: Seq<char>) -> bool {
    &&& s.len() > 0
    &&& forall|i: int| 0 <= i < s.len() ==> slug_char(#[trigger] s[i])
    &&& s[0] != '-'
    &&& s.last() != '-'
    &&& forall|i: int| 0 <= i < s.len() - 1 ==> !(#[trigger] s[i] == '-' && s[i + 1] == '-')
}

proof fn lemma_slug_scan(s: Seq<char>)
    ensures
        forall|i: int| 0 <= i < slug_scan(s).0.len() ==> slug_char(#[trigger] slug_scan(s).0[i]),
        slug_scan(s).0.len() > 0 ==> slug_scan(s).0[0] != '-',
        slug_scan(s).1 == (slug_scan(s).0.len() > 0 && slug_scan(s).0.last() == '-'),
        forall|i: int|
            0 <= i < slug_scan(s).0.len() - 1 ==> !(#[trigger] slug_scan(s).0[i] == '-' && slug_scan(s).0[i + 1] == '-'),
        (forall|i: int| 0 <= i < s.len() ==> !is_ascii_alnum(#[trigger] s[i])) ==> slug_scan(s).0.len() == 0,
    decreases s.len(),
{
    if s.len() > 0 {
        lemma_slug_scan(s.drop_last());
        let acc = slug_scan(s.drop_last());
        let ch = s.last();
        if is_ascii_alnum(ch) {
            let c2 = ascii_lower(ch);
            assert(slug_char(c2)) by {
                if 'A' <= ch && ch <= 'Z' {
                    assert(0x41 <= (ch as u32) <= 0x5a);
                    assert(0x61 <= (ch as u32) + 32 <= 0x7a);
                }
            }
            let t = acc.0.push(c2);
            assert forall|i: int| 0 <= i < t.len() implies slug_char(#[trigger] t[i]) by {
                if i < acc.0.len() {
                    assert(t[i] == acc.0[i]);
                }
            }
            assert forall|i: int| 0 <= i < t.len() - 1 implies !(#[trigger] t[i] == '-' && t[i + 1] == '-') by {
                if i + 1 < acc.0.len() {
                    assert(t[i] == acc.0[i] && t[i + 1] == acc.0[i + 1]);
                }
            }
        } else if !acc.1 && acc.0.len() > 0 {
            let t = acc.0.push('-');
            assert forall|i: int| 0 <= i < t.len() implies slug_char(#[trigger] t[i]) by {
                if i < acc.0.len() {
                    assert(t[i] == acc.0[i]);
                }
            }
            assert forall|i: int| 0 <= i < t.len() - 1 implies !(#[trigger] t[i] == '-' && t[i + 1] == '-') by {
                if i + 1 < acc.0.len() {
                    assert(t[i] == acc.0[i] && t[i + 1] == acc.0[i + 1]);
                } else {
                    assert(t[i] == acc.0.last());
                }
            }
        }
        if forall|i: int| 0 <= i < s.len() ==> !is_ascii_alnum(#[trigger] s[i]) {
            assert(!is_ascii_alnum(s[s.len() - 1]));
            assert forall|i: int| 0 <= i < s.drop_last().len() implies !is_ascii_alnum(#[trigger] s.drop_last()[i]) by {
                assert(s.drop_last()[i] == s[i]);
            }
        }
    }
}

proof fn lemma_drop_trailing(s: Seq<char>)
    ensures
        drop_trailing_dashes(s).len() <= s.len(),
        drop_trailing_dashes(s) == s.take(drop_trailing_dashes(s).len() as int),
        drop_trailing_dashes(s).len() > 0 ==> drop_trailing_dashes(s).last() != '-',
    decreases s.len(),
{
    if s.len() > 0 && s.last() == '-' {
        lemma_drop_trailing(s.drop_last());
        let r = drop_trailing_dashes(s.drop_last());
        assert(s.drop_last().take(r.len() as int) =~= s.take(r.len() as int));
    } else {
        assert(s.take(s.len() as int) =~= s);
    }
}

proof fn lemma_scan_of_clean(r: Seq<char>, k: int)
    requires
        slug_clean(r),
        0 <= k <= r.len(),
    ensures
        slug_scan(r.take(k)) == (r.take(k), k > 0 && r[k - 1] == '-'),
    decreases k,
{
    if k > 0 {
        lemma_scan_of_clean(r, k - 1);
        let t = r.take(k);
        assert(t.drop_last() =~= r.take(k - 1));
        assert(t.last() == r[k - 1]);
        let ch = r[k - 1];
        assert(slug_char(ch));
        if is_ascii_alnum(ch) {
            assert(ascii_lower(ch) == ch);
            assert(r.take(k - 1).push(ch) =~= t);
        } else {
            assert(ch == '-');
            assert(k - 1 > 0);
            assert(!(r[k - 2] == '-' && r[k - 1] == '-'));
            assert(r.take(k - 1).push('-') =~= t);
        }
    }
}

/// Every slug is well formed (non-empty; lowercase letters, digits and
/// single inner dashes only), slugging a slug gives it back, and a
/// signature with no ASCII letter or digit after the `sensor:` namespace
/// slugs to `sensor-strike`.
pub proof fn slug_is_clean_and_stable(sig: Seq<char>)
    ensures
        slug_clean(signature_slug(sig)),
        signature_slug(signature_slug(sig)) == signature_slug(sig),
        (forall|i: int| 0 <= i < slug_base(sig).len() ==> !is_ascii_alnum(#[trigger] slug_base(sig)[i]))
            ==> signature_slug(sig) == seq!['s', 'e', 'n', 's', 'o', 'r', '-', 's', 't', 'r', 'i', 'k', 'e'],
{
    let base = slug_base(sig);
    lemma_slug_scan(base);
    let t = slug_scan(base).0;
    if t.len() > 0 {
        assert(drop_leading_dashes(t) == t);
    } else {
        assert(drop_leading_dashes(t) == t);
    }
    lemma_drop_trailing(t);
    let r = drop_trailing_dashes(t);
    let fallback = seq!['s', 'e', 'n', 's', 'o', 'r', '-', 's', 't', 'r', 'i', 'k', 'e'];
    let out = signature_slug(sig);
    if r.len() > 0 {
        assert(out == r);
        assert forall|i: int| 0 <= i < r.len() implies slug_char(#[trigger] r[i]) by {
            assert(r[i] == t[i]);
        }
        assert(r[0] == t[0]);
        assert forall|i: int| 0 <= i < r.len() - 1 implies !(#[trigger] r[i] == '-' && r[i + 1] == '-') by {
            assert(r[i] == t[i] && r[i + 1] == t[i + 1]);
        }
    } else {
        assert(out == fallback);
        assert forall|i: int| 0 <= i < fallback.len() - 1 implies !(#[trigger] fallback[i] == '-' && fallback[i + 1] == '-') by {}
    }
    assert(slug_clean(out));
    lemma_scan_of_clean(out, out.len() as int);
    assert(out.take(out.len() as int) =~= out);
    assert(!starts_with(out, sensor_prefix())) by {
        if starts_with(out, sensor_prefix()) {
            assert(out.subrange(0, 7)[6] == ':');
            assert(out[6] == ':');
            assert(slug_char(out[6]));
        }
    }
    assert(drop_leading_dashes(out) == out);
    assert(drop_trailing_dashes(out) == out);
}

/// Removes leading and trailing dashes.
fn trim_dashes(s: &Vec<char>) -> (out: Vec<char>)
    ensures
        out@ == drop_trailing_dashes(drop_leading_dashes(s@)),
{
    let mut lo: usize = 0;
    proof {
        assert(s@.subrange(0, s.len() as int) =~= s@);
    }
    while lo < s.len() && s[lo] == '-'
        invariant
            lo <= s.len(),
            drop_leading_dashes(s@) == drop_leading_dashes(s@.subrange(lo as int, s.len() as int)),
        decreases s.len() - lo,
    {
        proof {
            assert(s@.subrange(lo as int, s.len() as int).drop_first() =~= s@.subrange(lo + 1, s.len() as int));
        }
        lo = lo + 1;
    }
    let ghost mid = s@.subrange(lo as int, s.len() as int);
    proof {
        assert(drop_leading_dashes(mid) == mid);
    }
    let mut hi: usize = s.len();
    while hi > lo && s[hi - 1] == '-'
        invariant
            lo <= hi <= s.len(),
            drop_trailing_dashes(mid) == drop_trailing_dashes(s@.subrange(lo as int, hi as int)),
            mid == s@.subrange(lo as int, s.len() as int),
        decreases hi - lo,
    {
        proof {
            assert(s@.subrange(lo as int, hi as int).drop_last() =~= s@.subrange(lo as int, hi - 1));
        }
        hi = hi - 1;
    }
    crate::text::slice_range(s.as_slice(), lo, hi)
}

/// Derives a skill directory name from a recorded signature.
///
/// `sensor:clippy` becomes `clippy`, and an arbitrary fingerprint becomes a
/// slug of lowercase alphanumerics separated by single dashes.
pub fn slug_from_signature(signature: &str) -> (slug: String)
    ensures
        slug@ == signature_slug(signature@),
{
    let all = to_chars(signature);
    let prefixed = str_starts_with(signature, "sensor:");
    proof {
        reveal_strlit("sensor:");
        assert("sensor:"@ =~= sensor_prefix());
    }
    let base = if prefixed {
        crate::text::slice_range(all.as_slice(), 7, all.len())
    } else {
        all
    };
    let mut slug: Vec<char> = Vec::new();
    let mut last_dash = false;
    let mut i: usize = 0;
    while i < base.len()
        invariant
            i <= base.len(),
            (slug@, last_dash) == slug_scan(base@.take(i as int)),
        decreases base.len() - i,
    {
        proof {
            assert(base@.take(i + 1).drop_last() =~= base@.take(i as int));
        }
        let ch = base[i];
        if char_is_ascii_alnum(ch) {
            slug.push(char_ascii_lower(ch));
            last_dash = false;
        } else if !last_dash && slug.len() > 0 {
            slug.push('-');
            last_dash = true;
        }
        i = i + 1;
    }
    proof {
        assert(base@.take(i as int) =~= base@);
    }
    let trimmed = trim_dashes(&slug);
    if trimmed.len() == 0 {
        let s = owned("sensor-strike");
        proof {
            reveal_strlit("sensor-strike");
            assert("sensor-strike"@ =~= seq!['s', 'e', 'n', 's', 'o', 'r', '-', 's', 't', 'r', 'i', 'k', 'e']);
        }
        s
    } else {
        from_chars(&trimmed)
    }
}

/// Opening front matter up to the skill name.
pub const SKILL_MD_HEAD: &'static str = "---\nname: ";

/// Front matter after the name, up to the signature.
pub const SKILL_MD_DESCRIPTION: &'static str = "\ndescription: >\n  Recurring sensor failure '";

/// Description after the signature, up to the strike count.
pub const SKILL_MD_RECORDED: &'static str = "' recorded ";

/// Description after the strike count, up to the short description.
pub const SKILL_MD_USE_WHEN: &'static str = " time(s) without a\n  resolved fix. Use when a run hits this failure signature again, before\n  repeating the same recovery attempt.\nlicense: MIT\nmetadata:\n  short-description: Recovery guide for ";

/// Front matter close, up to the heading.
pub const SKILL_MD_HEADING: &'static str = "\n---\n\n# ";

/// Body up to the signature bullet.
pub const SKILL_MD_INTRO: &'static str = "\n\nGenerated from a recorded strike, not from a verified fix. Complete it by\nrunning the failing sensor and writing down what actually made it pass.\n\n## Recorded failure\n\n- Signature: `";

/// Between the signature and the strike count.
pub const SKILL_MD_STRIKES: &'static str = "`\n- Consecutive strikes: ";

/// Between the strike count and the first-recorded time.
pub const SKILL_MD_FIRST: &'static str = "\n- First recorded: ";

/// Between the first-recorded time and the diagnostic.
pub const SKILL_MD_DIAGNOSTIC: &'static str = "\n- Last diagnostic: ";

/// The closing guidance.
pub const SKILL_MD_TAIL: &'static str = "\n\n## What to establish before changing code\n\n1. Reproduce the failure with the exact sensor command and capture its exit code.\n2. Classify it (compile, test, lint, environment, unavailable tool) before editing.\n3. Write the minimal fix for that class only; do not relax a sensor to pass.\n4. Re-run the same sensor and record the command that turned it green.\n\n## Anti-patterns\n\n- Do not weaken, bless, or re-baseline a fixture to make this signature disappear.\n- Do not retry the identical failed action a third time; change the hypothesis.\n- Do not treat an unavailable tool's SKIP as a pass.\n";

/// Stand-in for a signature with no recorded diagnostic.
pub const NO_DIAGNOSTIC: &'static str = "(no diagnostic recorded)";

/// The scaffold `SKILL.md` for a signature under `slug`.
pub open spec fn skill_md(sig: ErrorSignature, slug: Seq<char>) -> Seq<char> {
    let message = match sig.message {
        Some(m) => m@,
        None => NO_DIAGNOSTIC@,
    };
    let count = int_repr(sig.attempt_count as int);
    SKILL_MD_HEAD@ + slug + SKILL_MD_DESCRIPTION@ + sig.signature@ + SKILL_MD_RECORDED@ + count
        + SKILL_MD_USE_WHEN@ + slug + SKILL_MD_HEADING@ + slug + SKILL_MD_INTRO@ + sig.signature@
        + SKILL_MD_STRIKES@ + count + SKILL_MD_FIRST@ + int_repr(sig.created_at as int)
        + SKILL_MD_DIAGNOSTIC@ + message + SKILL_MD_TAIL@
}

/// Renders the scaffold `SKILL.md` from the recorded signature.
///
/// Every factual claim in the body comes from the signature row; the
/// guidance is a stub the author must complete.
pub fn render_skill_md(signature: &ErrorSignature, slug: &str) -> (md: String)
    ensures
        md@ == skill_md(*signature, slug@),
{
    let count = i64_to_string(signature.attempt_count);
    let created = i64_to_string(signature.created_at);
    let mut md = owned(SKILL_MD_HEAD);
    append_str(&mut md, slug);
    append_str(&mut md, SKILL_MD_DESCRIPTION);
    append_str(&mut md, signature.signature.as_str());
    append_str(&mut md, SKILL_MD_RECORDED);
    append_str(&mut md, count.as_str());
    append_str(&mut md, SKILL_MD_USE_WHEN);
    append_str(&mut md, slug);
    append_str(&mut md, SKILL_MD_HEADING);
    append_str(&mut md, slug);
    append_str(&mut md, SKILL_MD_INTRO);
    append_str(&mut md, signature.signature.as_str());
    append_str(&mut md, SKILL_MD_STRIKES);
    append_str(&mut md, count.as_str());
    append_str(&mut md, SKILL_MD_FIRST);
    append_str(&mut md, created.as_str());
    append_str(&mut md, SKILL_MD_DIAGNOSTIC);
    match &signature.message {
        Some(m) => append_str(&mut md, m.as_str()),
        None => append_str(&mut md, NO_DIAGNOSTIC),
    }
    append_str(&mut md, SKILL_MD_TAIL);
    md
}

/// The strike log a scaffolded skill's fixture demands.
pub fn strike_log_path(slug: &str) -> (p: String)
    ensures
        p@ == ".agents/skills/"@ + slug@ + "/references/strike-log.md"@,
{
    let mut p = owned(".agents/skills/");
    append_str(&mut p, slug);
    append_str(&mut p, "/references/strike-log.md");
    p
}

/// The skill directory for `slug` under `root`.
pub open spec fn skill_dir(root: Seq<char>, slug: Seq<char>) -> Seq<char> {
    joined(joined(joined(root, ".agents"@), "skills"@), slug)
}

/// Decides what a scaffold run does for one striking signature, given
/// whether its skill already has a `SKILL.md`: an existing skill is skipped
/// with no files; otherwise the two scaffold files are listed, written unless
/// `dry_run`.
pub fn scaffold_outcome(root: &str, slug: String, strikes: i64, existing: bool, dry_run: bool) -> (o: ScaffoldOutcome)
    ensures
        o.skill@ == slug@,
        o.strikes == strikes,
        existing ==> o.action == ScaffoldAction::ExistingSkill && o.files.len() == 0,
        !existing ==> o.action == (if dry_run {
            ScaffoldAction::WouldWrite
        } else {
            ScaffoldAction::Wrote
        }) && o.files.len() == 2 && o.files@[0]@ == joined(skill_dir(root@, slug@), "SKILL.md"@)
            && o.files@[1]@ == joined(joined(skill_dir(root@, slug@), "evals"@), "evals.json"@),
{
    if existing {
        return ScaffoldOutcome { skill: slug, action: ScaffoldAction::ExistingSkill, strikes, files: Vec::new() };
    }
    let a = join_path(root, ".agents");
    let b = join_path(a.as_str(), "skills");
    let dir = join_path(b.as_str(), slug.as_str());
    let skill_file = join_path(dir.as_str(), "SKILL.md");
    let evals_dir = join_path(dir.as_str(), "evals");
    let evals_file = join_path(evals_dir.as_str(), "evals.json");
    let mut files: Vec<String> = Vec::new();
    files.push(skill_file);
    files.push(evals_file);
    let action = if dry_run {
        ScaffoldAction::WouldWrite
    } else {
        ScaffoldAction::Wrote
    };
    ScaffoldOutcome { skill: slug, action, strikes, files }
}

/// The text of a scaffold's starter fixture: the recovery case's prompt,
/// expected output and (negative) assertions against the strike log, and
/// the out-of-scope case's assertion. The assertions are negative because
/// an unresolved strike has no verified positive outcome.
pub struct EvalsFixture {
    pub recovery_prompt: String,
    pub recovery_expected: String,
    pub recovery_assertions: Vec<String>,
    pub unrelated_assertion: String,
}

/// The recovery case's prompt for a signature.
pub open spec fn recovery_prompt(sig: Seq<char>) -> Seq<char> {
    "A sensor keeps failing with the recorded signature '"@ + sig
        + "'. Work the recovery and record what actually made it pass."@
}

/// The recovery case's expected output for a signature.
pub open spec fn recovery_expected(sig: Seq<char>) -> Seq<char> {
    "Diagnose the recorded failure '"@ + sig
        + "' with the exact sensor command, record the recovery in references/strike-log.md, and never relax a sensor or bless a fixture to pass."@
}

/// The recovery case's assertions against the strike log at `log`.
pub open spec fn recovery_assertions(log: Seq<char>) -> Seq<Seq<char>> {
    seq![
        "exists:"@ + log,
        "not-contains:"@ + log + "|relaxed the sensor"@,
        "not-contains:"@ + log + "|skipped the sensor"@,
        "not-contains:"@ + log + "|blessed the baseline"@,
    ]
}

/// The starter fixture text for a signature scaffolded under `slug`.
pub fn evals_fixture(signature: &ErrorSignature, slug: &str) -> (f: EvalsFixture)
    ensures
        f.recovery_prompt@ == recovery_prompt(signature.signature@),
        f.recovery_expected@ == recovery_expected(signature.signature@),
        crate::text::string_views(f.recovery_assertions@) == recovery_assertions(
            ".agents/skills/"@ + slug@ + "/references/strike-log.md"@,
        ),
        f.unrelated_assertion@ == "absent:.do-harness/strike-"@ + slug@ + "-applied"@,
{
    let log = strike_log_path(slug);
    let mut prompt = owned("A sensor keeps failing with the recorded signature '");
    append_str(&mut prompt, signature.signature.as_str());
    append_str(&mut prompt, "'. Work the recovery and record what actually made it pass.");
    let mut expected = owned("Diagnose the recorded failure '");
    append_str(&mut expected, signature.signature.as_str());
    append_str(
        &mut expected,
        "' with the exact sensor command, record the recovery in references/strike-log.md, and never relax a sensor or bless a fixture to pass.",
    );
    let exists = crate::text::concat("exists:", log.as_str());
    let mut relaxed = crate::text::concat("not-contains:", log.as_str());
    append_str(&mut relaxed, "|relaxed the sensor");
    let mut skipped = crate::text::concat("not-contains:", log.as_str());
    append_str(&mut skipped, "|skipped the sensor");
    let mut blessed = crate::text::concat("not-contains:", log.as_str());
    append_str(&mut blessed, "|blessed the baseline");
    let mut assertions: Vec<String> = Vec::new();
    assertions.push(exists);
    assertions.push(relaxed);
    assertions.push(skipped);
    assertions.push(blessed);
    let mut unrelated = owned("absent:.do-harness/strike-");
    append_str(&mut unrelated, slug);
    append_str(&mut unrelated, "-applied");
    proof {
        assert(crate::text::string_views(assertions@) =~= recovery_assertions(log@));
    }
    EvalsFixture {
        recovery_prompt: prompt,
        recovery_expected: expected,
        recovery_assertions: assertions,
        unrelated_assertion: unrelated,
    }
}

/// Whether a slug passes the optional `--skill` filter.
pub open spec fn passes_filter(filter: Option<Seq<char>>, slug: Seq<char>) -> bool {
    match filter {
        Some(f) => f == slug,
        None => true,
    }
}

/// One striking signature a scaffold run considers: its slug and strikes.
pub struct ScaffoldCandidate {
    pub slug: String,
    pub strikes: i64,
    pub signature: String,
}

/// The striking signatures a scaffold run works through, in report order,
/// with their slugs, keeping only the slug named by `skill_filter` if any.
pub fn scaffold_candidates(signatures: &[ErrorSignature], skill_filter: Option<&str>, threshold: i64) -> (out: Vec<ScaffoldCandidate>)
    ensures
        exists|order: Seq<&ErrorSignature>, kept: Seq<&ErrorSignature>, p: Seq<int>|
            #[trigger] stable_sort_of(order, kept, p, strike_key_fn()) && derefs(kept) == at_threshold(
                signatures@,
                threshold as int,
            ) && candidates_of(order, match skill_filter {
                Some(f) => Some(f@),
                None => None,
            }) == candidate_views(out@),
{
    let striking = striking_signatures(signatures, threshold);
    let mut out: Vec<ScaffoldCandidate> = Vec::new();
    let ghost filter = match skill_filter {
        Some(f) => Some(f@),
        None => None,
    };
    let mut i: usize = 0;
    while i < striking.len()
        invariant
            i <= striking.len(),
            candidate_views(out@) == candidates_of(striking@.take(i as int), filter),
            filter == match skill_filter {
                Some(f) => Some(f@),
                None => None::<Seq<char>>,
            },
        decreases striking.len() - i,
    {
        proof {
            assert(striking@.take(i + 1).drop_last() =~= striking@.take(i as int));
        }
        let s = striking[i];
        let slug = slug_from_signature(s.signature.as_str());
        let keep = match skill_filter {
            Some(f) => str_eq(f, slug.as_str()),
            None => true,
        };
        if keep {
            let ghost before = out@;
            out.push(ScaffoldCandidate { slug, strikes: s.attempt_count, signature: s.signature.clone() });
            proof {
                assert(candidate_views(out@) =~= candidate_views(before).push((signature_slug(s.signature@), s.attempt_count as int, s.signature@)));
            }
        }
        i = i + 1;
    }
    proof {
        assert(striking@.take(i as int) =~= striking@);
    }
    out
}

/// The candidates as plain values: slug, strikes, signature.
pub open spec fn candidate_views(v: Seq<ScaffoldCandidate>) -> Seq<(Seq<char>, int, Seq<char>)> {
    v.map_values(|c: ScaffoldCandidate| (c.slug@, c.strikes as int, c.signature@))
}

/// The candidates of ordered striking signatures under a filter.
pub open spec fn candidates_of<'a>(order: Seq<&'a ErrorSignature>, filter: Option<Seq<char>>) -> Seq<(Seq<char>, int, Seq<char>)>
    decreases order.len(),
{
    if order.len() == 0 {
        seq![]
    } else {
        let r = candidates_of(order.drop_last(), filter);
        let s = order.last();
        let slug = signature_slug(s.signature@);
        if passes_filter(filter, slug) {
            r.push((slug, s.attempt_count as int, s.signature@))
        } else {
            r
        }
    }
}

/// The text report line for one outcome: `<verb> <skill> (<n> strike(s))`.
pub fn outcome_line(o: &ScaffoldOutcome) -> (s: String)
    ensures
        s@ == (if o.action == ScaffoldAction::Wrote {
            "scaffolded"@
        } else if o.action == ScaffoldAction::WouldWrite {
            "would scaffold"@
        } else {
            "skipped existing skill"@
        }) + seq![' '] + o.skill@ + seq![' ', '('] + int_repr(o.strikes as int) + " strike(s))"@,
{
    let mut s = owned(o.action.verb());
    push_char(&mut s, ' ');
    append_str(&mut s, o.skill.as_str());
    push_char(&mut s, ' ');
    push_char(&mut s, '(');
    let n = i64_to_string(o.strikes);
    append_str(&mut s, n.as_str());
    append_str(&mut s, " strike(s))");
    s
}

} // verus!
