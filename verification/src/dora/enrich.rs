//! Opt-in `GitHub` enrichment: release-run reconciliation and PR lead time.
//!
//! The four hermetic metrics stay git-derived; these numbers come from
//! `gh` rows the host program reads, and any row this module cannot read is
//! an error rather than a silent gap.
use vstd::prelude::*;

use crate::dora::gh::{parse_rfc3339_utc, rfc3339_fits, rfc3339_seconds, in_i64};
use crate::dora::git::Tag;
use crate::dora::{value_key_fn, values_sorted, value_sort_is_sorted};
use crate::order::{chars_lt, sort_by_keys, stable_sort_of, text_lt, SortKey};
use crate::assoc::{assoc_insert, assoc_lookup, keys_ascending, lemma_assoc_insert_at, lemma_assoc_insert_sorted, lemma_assoc_lookup_first, lemma_assoc_lookup_none};
use crate::text::{list_has, owned, str_eq, string_views, to_chars};

verus! {

/// The workflow whose runs are reconciled against deploy tags.
pub const RELEASE_WORKFLOW: &'static str = "release.yml";

/// One release-workflow run as `gh run list` reports it.
pub struct RunRow {
    pub conclusion: Option<String>,
    pub created_at: Option<String>,
    pub head_sha: String,
}

/// One merged pull request as `gh pr list` reports it.
pub struct PrRow {
    pub number: u64,
    pub created_at: Option<String>,
    pub merged_at: Option<String>,
}

/// Why `gh` rows could not be read.
#[derive(Debug)]
pub enum GhRowError {
    /// A run without `createdAt` (its head SHA).
    RunWithoutCreatedAt(String),
    /// A run whose `createdAt` does not parse (the value).
    UnparsableRunCreatedAt(String),
    /// A pull request whose `createdAt` does not parse (its number).
    UnparsablePrCreatedAt(u64),
    /// A pull request whose `mergedAt` does not parse (its number).
    UnparsablePrMergedAt(u64),
}

/// Release-run facts for the measurement window, plus deployment history.
pub struct RunStats {
    /// Release runs created inside the window.
    pub total: i64,
    /// Windowed runs that concluded anything other than `success`.
    pub failed: i64,
    /// Heads of any successful run, windowed or not.
    pub successful_heads: Vec<String>,
    /// Windowed run conclusion per head, in head order: `success` when any
    /// windowed run of the head succeeded, else its first run's conclusion
    /// (`pending` when it has none).
    pub by_head: Vec<(String, String)>,
}

/// The view of an optional string.
pub open spec fn opt_chars(s: Option<String>) -> Option<Seq<char>> {
    match s {
        Some(v) => Some(v@),
        None => None,
    }
}

/// A run's label: its conclusion, `pending` when it has none.
pub open spec fn run_label(r: RunRow) -> Seq<char> {
    match r.conclusion {
        Some(c) => c@,
        None => "pending"@,
    }
}

/// Run statistics as plain values: total, failed, successful heads, and the
/// per-head labels.
pub type StatsView = (int, int, Seq<Seq<char>>, Seq<(Seq<char>, Seq<char>)>);

/// The per-head labels after one windowed run of `head` labelled `label`.
pub open spec fn head_step(by_head: Seq<(Seq<char>, Seq<char>)>, head: Seq<char>, label: Seq<char>) -> Seq<(Seq<char>, Seq<char>)> {
    match assoc_lookup(by_head, head) {
        None => assoc_insert(by_head, head, label),
        Some(_) => if label == "success"@ {
            assoc_insert(by_head, head, label)
        } else {
            by_head
        },
    }
}

/// Folds release runs, in order, into windowed counters and deployment
/// history; the first run without a readable `createdAt` is an error.
pub open spec fn runs_fold(runs: Seq<RunRow>, ws: int, we: int) -> Result<StatsView, GhRowError>
    decreases runs.len(),
{
    if runs.len() == 0 {
        Ok((0, 0, seq![], seq![]))
    } else {
        match runs_fold(runs.drop_last(), ws, we) {
            Err(e) => Err(e),
            Ok(s) => {
                let r = runs.last();
                match r.created_at {
                    None => Err(GhRowError::RunWithoutCreatedAt(r.head_sha)),
                    Some(c) => match rfc3339_seconds(c@) {
                        None => Err(GhRowError::UnparsableRunCreatedAt(c)),
                        Some(t) => {
                            let success = opt_chars(r.conclusion) == Some("success"@);
                            let heads = if success {
                                s.2.push(r.head_sha@)
                            } else {
                                s.2
                            };
                            if t < ws || t > we {
                                Ok((s.0, s.1, heads, s.3))
                            } else {
                                let failed = if r.conclusion is Some && !success {
                                    s.1 + 1
                                } else {
                                    s.1
                                };
                                Ok((s.0 + 1, failed, heads, head_step(s.3, r.head_sha@, run_label(r))))
                            }
                        },
                    },
                }
            },
        }
    }
}

/// Whether a run was created inside the window `[ws, we]`.
pub open spec fn created_in_window(r: RunRow, ws: int, we: int) -> bool {
    match r.created_at {
        Some(c) => match rfc3339_seconds(c@) {
            Some(t) => ws <= t <= we,
            None => false,
        },
        None => false,
    }
}

/// Runs created inside the window.
pub open spec fn in_window_fn(ws: int, we: int) -> spec_fn(RunRow) -> bool {
    |r: RunRow| created_in_window(r, ws, we)
}

/// Runs created inside the window whose conclusion is present and is not
/// `success`.
pub open spec fn failed_in_window_fn(ws: int, we: int) -> spec_fn(RunRow) -> bool {
    |r: RunRow| created_in_window(r, ws, we) && r.conclusion is Some && opt_chars(r.conclusion) != Some("success"@)
}

/// Runs that concluded `success`.
pub open spec fn succeeded_fn() -> spec_fn(RunRow) -> bool {
    |r: RunRow| opt_chars(r.conclusion) == Some("success"@)
}

/// What the run counters count: when the runs can be read, `total` is the
/// number of runs created inside the window and `failed` the number of
/// those that concluded anything other than `success` (a run still without
/// a conclusion is not failed); the successful heads are those of every
/// successful run, windowed or not, in run order.
pub proof fn run_counts_law(runs: Seq<RunRow>, ws: int, we: int)
    ensures
        runs_fold(runs, ws, we) matches Ok(v) ==> v.0 == runs.filter(in_window_fn(ws, we)).len() && v.1
            == runs.filter(failed_in_window_fn(ws, we)).len() && v.2 == runs.filter(succeeded_fn()).map_values(
            |r: RunRow| r.head_sha@,
        ),
    decreases runs.len(),
{
    reveal(Seq::filter);
    if runs.len() > 0 {
        run_counts_law(runs.drop_last(), ws, we);
        let init = runs.drop_last().filter(succeeded_fn());
        assert(init.push(runs.last()).map_values(|r: RunRow| r.head_sha@) =~= init.map_values(|r: RunRow| r.head_sha@).push(
            runs.last().head_sha@,
        ));
    }
}

/// The view of run statistics.
pub open spec fn stats_view(s: RunStats) -> StatsView {
    (s.total as int, s.failed as int, string_views(s.successful_heads@), s.by_head@.map_values(|e: (String, String)| (e.0@, e.1@)))
}

/// Same error, as plain values.
pub open spec fn same_error(a: GhRowError, b: GhRowError) -> bool {
    match (a, b) {
        (GhRowError::RunWithoutCreatedAt(x), GhRowError::RunWithoutCreatedAt(y)) => x@ == y@,
        (GhRowError::UnparsableRunCreatedAt(x), GhRowError::UnparsableRunCreatedAt(y)) => x@ == y@,
        (GhRowError::UnparsablePrCreatedAt(x), GhRowError::UnparsablePrCreatedAt(y)) => x == y,
        (GhRowError::UnparsablePrMergedAt(x), GhRowError::UnparsablePrMergedAt(y)) => x == y,
        _ => false,
    }
}

/// Sets `head` to `label` in a head-ordered label list.
fn put_head(entries: &mut Vec<(String, String)>, head: String, label: String)
    requires
        keys_ascending(old(entries)@.map_values(|e: (String, String)| (e.0@, e.1@))),
    ensures
        keys_ascending(final(entries)@.map_values(|e: (String, String)| (e.0@, e.1@))),
        final(entries)@.map_values(|e: (String, String)| (e.0@, e.1@)) == assoc_insert(
            old(entries)@.map_values(|e: (String, String)| (e.0@, e.1@)),
            head@,
            label@,
        ),
{
    let ghost s = entries@.map_values(|e: (String, String)| (e.0@, e.1@));
    let k = to_chars(head.as_str());
    let mut p: usize = 0;
    let mut searching = true;
    while searching && p < entries.len()
        invariant
            p <= entries.len(),
            entries@.map_values(|e: (String, String)| (e.0@, e.1@)) == s,
            entries@.len() == s.len(),
            forall|i: int| 0 <= i < p ==> text_lt(#[trigger] s[i].0, k@),
            !searching ==> p < s.len() && !text_lt(s[p as int].0, k@),
        decreases entries.len() - p, if searching {
            1int
        } else {
            0int
        },
    {
        let n = to_chars(entries[p].0.as_str());
        proof {
            assert(s[p as int] == (entries@[p as int].0@, entries@[p as int].1@));
        }
        if !chars_lt(&n, &k) {
            searching = false;
        } else {
            p = p + 1;
        }
    }
    proof {
        lemma_assoc_insert_at(s, head@, label@, p as int);
        lemma_assoc_insert_sorted(s, head@, label@);
    }
    let replace = p < entries.len() && str_eq(entries[p].0.as_str(), head.as_str());
    let ghost lv = label@;
    if replace {
        entries.set(p, (head, label));
        proof {
            assert(entries@.map_values(|e: (String, String)| (e.0@, e.1@)) =~= s.update(p as int, (k@, lv)));
        }
    } else {
        entries.insert(p, (head, label));
        proof {
            assert(entries@.map_values(|e: (String, String)| (e.0@, e.1@)) =~= s.take(p as int).push((k@, lv)) + s.skip(p as int));
        }
    }
}

/// Whether `head` has a label.
fn has_head(entries: &Vec<(String, String)>, head: &str) -> (b: bool)
    ensures
        b == (assoc_lookup(entries@.map_values(|e: (String, String)| (e.0@, e.1@)), head@) is Some),
{
    let ghost s = entries@.map_values(|e: (String, String)| (e.0@, e.1@));
    let mut i: usize = 0;
    while i < entries.len()
        invariant
            i <= entries.len(),
            s == entries@.map_values(|e: (String, String)| (e.0@, e.1@)),
            forall|j: int| 0 <= j < i ==> #[trigger] s[j].0 != head@,
        decreases entries.len() - i,
    {
        proof {
            assert(s[i as int] == (entries@[i as int].0@, entries@[i as int].1@));
        }
        if str_eq(entries[i].0.as_str(), head) {
            proof {
                lemma_assoc_lookup_first(s, head@, i as int);
            }
            return true;
        }
        i = i + 1;
    }
    proof {
        lemma_assoc_lookup_none(s, head@);
    }
    false
}

/// A value as an integer.
pub open spec fn int_of_fn() -> spec_fn(i64) -> int {
    |x: i64| x as int
}

/// The run's `createdAt`, when present, converts without overflow.
pub open spec fn run_fits(r: RunRow) -> bool {
    match r.created_at {
        Some(c) => rfc3339_fits(c@),
        None => true,
    }
}

/// Folds release runs into windowed counters and deployment history.
pub fn run_stats(runs: &[RunRow], window_start: i64, window_end: i64) -> (r: Result<RunStats, GhRowError>)
    requires
        runs.len() <= i64::MAX,
        forall|i: int| 0 <= i < runs.len() ==> run_fits(#[trigger] runs@[i]),
    ensures
        match runs_fold(runs@, window_start as int, window_end as int) {
            Ok(v) => r matches Ok(s) && stats_view(s) == v,
            Err(e) => r matches Err(x) && same_error(x, e),
        },
{
    let ghost ws = window_start as int;
    let ghost we = window_end as int;
    let mut total: i64 = 0;
    let mut failed: i64 = 0;
    let mut heads: Vec<String> = Vec::new();
    let mut by_head: Vec<(String, String)> = Vec::new();
    let mut i: usize = 0;
    proof {
        assert(by_head@.map_values(|e: (String, String)| (e.0@, e.1@)) =~= Seq::<(Seq<char>, Seq<char>)>::empty());
        assert(string_views(heads@) =~= Seq::<Seq<char>>::empty());
        assert(runs@.take(0) =~= Seq::<RunRow>::empty());
    }
    while i < runs.len()
        invariant
            i <= runs.len(),
            runs.len() <= i64::MAX,
            ws == window_start,
            we == window_end,
            forall|k: int| 0 <= k < runs.len() ==> run_fits(#[trigger] runs@[k]),
            runs_fold(runs@.take(i as int), ws, we) == Ok::<StatsView, GhRowError>(
                (total as int, failed as int, string_views(heads@), by_head@.map_values(|e: (String, String)| (e.0@, e.1@))),
            ),
            0 <= failed <= total <= i,
            keys_ascending(by_head@.map_values(|e: (String, String)| (e.0@, e.1@))),
        decreases runs.len() - i,
    {
        proof {
            assert(runs@.take(i + 1).drop_last() =~= runs@.take(i as int));
            assert(runs@.take(i + 1).last() == runs@[i as int]);
        }
        let run = &runs[i];
        let created_at = match &run.created_at {
            None => {
                proof {
                    lemma_runs_fold_prefix_err(runs@, ws, we, i + 1);
                }
                return Err(GhRowError::RunWithoutCreatedAt(run.head_sha.clone()));
            },
            Some(c) => c,
        };
        proof {
            assert(run_fits(runs@[i as int]));
        }
        let created = match parse_rfc3339_utc(created_at.as_str()) {
            None => {
                proof {
                    lemma_runs_fold_prefix_err(runs@, ws, we, i + 1);
                }
                return Err(GhRowError::UnparsableRunCreatedAt(created_at.clone()));
            },
            Some(t) => t,
        };
        let success = match &run.conclusion {
            Some(c) => str_eq(c.as_str(), "success"),
            None => false,
        };
        let ghost hv = string_views(heads@);
        if success {
            heads.push(run.head_sha.clone());
            proof {
                assert(string_views(heads@) =~= hv.push(run.head_sha@));
            }
        }
        if !(created < window_start || created > window_end) {
            total = total + 1;
            if run.conclusion.is_some() && !success {
                failed = failed + 1;
            }
            let label = match &run.conclusion {
                Some(c) => c.clone(),
                None => owned("pending"),
            };
            let known = has_head(&by_head, run.head_sha.as_str());
            if !known || str_eq(label.as_str(), "success") {
                put_head(&mut by_head, run.head_sha.clone(), label);
            }
        }
        i = i + 1;
    }
    proof {
        assert(runs@.take(i as int) =~= runs@);
    }
    Ok(RunStats { total, failed, successful_heads: heads, by_head })
}

proof fn lemma_runs_fold_prefix_err(runs: Seq<RunRow>, ws: int, we: int, k: int)
    requires
        0 <= k <= runs.len(),
        runs_fold(runs.take(k), ws, we) is Err,
    ensures
        runs_fold(runs, ws, we) == runs_fold(runs.take(k), ws, we),
    decreases runs.len() - k,
{
    if k < runs.len() {
        assert(runs.take(k + 1).drop_last() =~= runs.take(k));
        lemma_runs_fold_prefix_err(runs, ws, we, k + 1);
    } else {
        assert(runs.take(k) =~= runs);
    }
}

/// PR-open to merge durations (clamped at zero) of pull requests merged in
/// the window, in row order; a row missing either timestamp is skipped, and
/// the first present timestamp that does not parse is an error.
pub open spec fn pr_fold(prs: Seq<PrRow>, ws: int, we: int) -> Result<Seq<int>, GhRowError>
    decreases prs.len(),
{
    if prs.len() == 0 {
        Ok(seq![])
    } else {
        match pr_fold(prs.drop_last(), ws, we) {
            Err(e) => Err(e),
            Ok(s) => {
                let p = prs.last();
                match (p.created_at, p.merged_at) {
                    (Some(c), Some(m)) => match rfc3339_seconds(c@) {
                        None => Err(GhRowError::UnparsablePrCreatedAt(p.number)),
                        Some(ct) => match rfc3339_seconds(m@) {
                            None => Err(GhRowError::UnparsablePrMergedAt(p.number)),
                            Some(mt) => if mt < ws || mt > we {
                                Ok(s)
                            } else {
                                Ok(s.push(if mt - ct > 0 {
                                    mt - ct
                                } else {
                                    0
                                }))
                            },
                        },
                    },
                    _ => Ok(s),
                }
            },
        }
    }
}

/// The row's timestamps parse without overflow and their difference fits.
pub open spec fn pr_fits(p: PrRow) -> bool {
    match (p.created_at, p.merged_at) {
        (Some(c), Some(m)) => rfc3339_fits(c@) && rfc3339_fits(m@) && match (rfc3339_seconds(c@), rfc3339_seconds(m@)) {
            (Some(ct), Some(mt)) => in_i64(mt - ct),
            _ => true,
        },
        _ => true,
    }
}

proof fn lemma_pr_fold_prefix_err(prs: Seq<PrRow>, ws: int, we: int, k: int)
    requires
        0 <= k <= prs.len(),
        pr_fold(prs.take(k), ws, we) is Err,
    ensures
        pr_fold(prs, ws, we) == pr_fold(prs.take(k), ws, we),
    decreases prs.len() - k,
{
    if k < prs.len() {
        assert(prs.take(k + 1).drop_last() =~= prs.take(k));
        lemma_pr_fold_prefix_err(prs, ws, we, k + 1);
    } else {
        assert(prs.take(k) =~= prs);
    }
}

/// Merged pull requests in the window as PR-open to merge durations,
/// sorted ascending.
pub fn pr_lead(prs: &[PrRow], window_start: i64, window_end: i64) -> (r: Result<Vec<i64>, GhRowError>)
    requires
        forall|i: int| 0 <= i < prs.len() ==> pr_fits(#[trigger] prs@[i]),
    ensures
        match pr_fold(prs@, window_start as int, window_end as int) {
            Ok(v) => r matches Ok(out) && exists|raw: Seq<i64>, perm: Seq<int>|
                #[trigger] stable_sort_of(out@, raw, perm, value_key_fn()) && raw.map_values(int_of_fn()) == v,
            Err(e) => r matches Err(x) && same_error(x, e),
        },
{
    let ghost ws = window_start as int;
    let ghost we = window_end as int;
    let mut lead: Vec<i64> = Vec::new();
    let mut i: usize = 0;
    proof {
        assert(lead@.map_values(int_of_fn()) =~= Seq::<int>::empty());
        assert(prs@.take(0) =~= Seq::<PrRow>::empty());
    }
    while i < prs.len()
        invariant
            i <= prs.len(),
            ws == window_start,
            we == window_end,
            forall|k: int| 0 <= k < prs.len() ==> pr_fits(#[trigger] prs@[k]),
            pr_fold(prs@.take(i as int), ws, we) == Ok::<Seq<int>, GhRowError>(lead@.map_values(int_of_fn())),
        decreases prs.len() - i,
    {
        proof {
            assert(prs@.take(i + 1).drop_last() =~= prs@.take(i as int));
            assert(prs@.take(i + 1).last() == prs@[i as int]);
            assert(pr_fits(prs@[i as int]));
        }
        let pr = &prs[i];
        match (&pr.created_at, &pr.merged_at) {
            (Some(c), Some(m)) => {
                let created = match parse_rfc3339_utc(c.as_str()) {
                    None => {
                        proof {
                            lemma_pr_fold_prefix_err(prs@, ws, we, i + 1);
                        }
                        return Err(GhRowError::UnparsablePrCreatedAt(pr.number));
                    },
                    Some(t) => t,
                };
                let merged = match parse_rfc3339_utc(m.as_str()) {
                    None => {
                        proof {
                            lemma_pr_fold_prefix_err(prs@, ws, we, i + 1);
                        }
                        return Err(GhRowError::UnparsablePrMergedAt(pr.number));
                    },
                    Some(t) => t,
                };
                if !(merged < window_start || merged > window_end) {
                    let d = merged - created;
                    let ghost before = lead@;
                    lead.push(if d > 0 {
                        d
                    } else {
                        0
                    });
                    proof {
                        assert(lead@.map_values(int_of_fn()) =~= before.map_values(int_of_fn()).push(
                            if merged - created > 0 {
                                merged - created
                            } else {
                                0
                            },
                        ));
                    }
                }
            },
            _ => {},
        }
        i = i + 1;
    }
    proof {
        assert(prs@.take(i as int) =~= prs@);
    }
    let ghost found = lead@;
    let ghost folded = pr_fold(prs@, window_start as int, window_end as int);
    assert(folded == Ok::<Seq<int>, GhRowError>(found.map_values(int_of_fn())));
    let mut keys: Vec<SortKey> = Vec::new();
    let mut j: usize = 0;
    while j < lead.len()
        invariant
            j <= lead.len(),
            keys.len() == j,
            forall|k: int| 0 <= k < j ==> #[trigger] keys@[k].view_key() == value_key_fn()(lead@[k]),
        decreases lead.len() - j,
    {
        let text: Vec<char> = Vec::new();
        keys.push(SortKey { num: lead[j], text });
        proof {
            assert(keys@[j as int].view_key().1 =~= Seq::<char>::empty());
        }
        j = j + 1;
    }
    let (sorted, Ghost(p)) = sort_by_keys(lead, keys, Ghost(value_key_fn()));
    proof {
        assert(stable_sort_of(sorted@, found, p, value_key_fn()));
        assert(folded == pr_fold(prs@, window_start as int, window_end as int));
    }
    let res: Result<Vec<i64>, GhRowError> = Ok(sorted);
    proof {
        let v = found.map_values(int_of_fn());
        assert(res matches Ok(out) && stable_sort_of(out@, found, p, value_key_fn()));
        assert(res matches Ok(out) && exists|raw: Seq<i64>, perm: Seq<int>|
            #[trigger] stable_sort_of(out@, raw, perm, value_key_fn()) && raw.map_values(int_of_fn()) == v);
    }
    res
}

/// Deploy tags whose revision never produced a successful release run: a
/// tag of the snapshot's deploys, in tag order, whose revision is not a
/// successful head.
pub open spec fn mismatches_of(tags: Seq<Tag>, deploy_tags: Seq<Seq<char>>, heads: Seq<Seq<char>>) -> Seq<Seq<char>>
    decreases tags.len(),
{
    if tags.len() == 0 {
        seq![]
    } else {
        let r = mismatches_of(tags.drop_last(), deploy_tags, heads);
        let t = tags.last();
        if deploy_tags.contains(t.name@) && !heads.contains(t.rev@) {
            r.push(t.name@)
        } else {
            r
        }
    }
}

/// The deploy tags that did not actually ship.
pub fn deploy_head_mismatches(tags: &[Tag], deploy_tags: &[String], successful_heads: &[String]) -> (out: Vec<String>)
    ensures
        string_views(out@) == mismatches_of(tags@, string_views(deploy_tags@), string_views(successful_heads@)),
{
    let mut out: Vec<String> = Vec::new();
    let mut i: usize = 0;
    while i < tags.len()
        invariant
            i <= tags.len(),
            string_views(out@) == mismatches_of(tags@.take(i as int), string_views(deploy_tags@), string_views(successful_heads@)),
        decreases tags.len() - i,
    {
        proof {
            assert(tags@.take(i + 1).drop_last() =~= tags@.take(i as int));
            assert(tags@.take(i + 1).last() == tags@[i as int]);
        }
        let t = &tags[i];
        if list_has(deploy_tags, t.name.as_str()) && !list_has(successful_heads, t.rev.as_str()) {
            let ghost before = out@;
            out.push(t.name.clone());
            proof {
                assert(string_views(out@) =~= string_views(before).push(t.name@));
            }
        }
        i = i + 1;
    }
    proof {
        assert(tags@.take(i as int) =~= tags@);
    }
    out
}

} // verus!
