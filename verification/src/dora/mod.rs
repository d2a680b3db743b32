//! Deterministic DORA deployment metrics derived from git history.
//!
//! Every number comes from persisted git history plus the pinned policy, so
//! the same input yields the same output. Everything measured is an integer;
//! the change failure rate stays an exact `deploys_failed/deploy_count` pair.
pub mod gh;
pub mod git;
pub mod policy;
pub mod enrich;

use vstd::prelude::*;

use crate::clock::system_secs_since_epoch;
use crate::dora::git::{LeadScan, Tag};
use crate::dora::policy::{breach_list, breaches, rules_fit, BreachFinding, PolicyLimits, RuleInputs, SECONDS_PER_DAY};
use crate::order::{dedup_by_text, dedup_text, key_le, keys_sorted, sort_by_keys, stable_sort_of, SortKey};
use crate::text::{append_str, concat, owned, push_char, to_chars};

verus! {

/// One incident: a revert and the deploy that restored service, when any did.
pub struct Incident {
    /// Revert commit SHA.
    pub revert_sha: String,
    /// Revert commit timestamp.
    pub revert_ts: i64,
    /// Tag that restored service, strictly after the revert.
    pub restored_by: Option<String>,
    /// Timestamp of the restoring tag.
    pub restore_ts: Option<i64>,
}

/// The view of an optional string.
pub open spec fn opt_view(s: Option<String>) -> Option<Seq<char>> {
    match s {
        Some(v) => Some(v@),
        None => None,
    }
}

/// Index of the first tag deployed strictly after `ts`, in list order.
pub open spec fn first_after(tags: Seq<Tag>, ts: int) -> Option<int>
    decreases tags.len(),
{
    if tags.len() == 0 {
        None
    } else {
        match first_after(tags.drop_last(), ts) {
            Some(i) => Some(i),
            None => if tags.last().deploy_ts > ts {
                Some(tags.len() - 1)
            } else {
                None
            },
        }
    }
}

/// An incident as plain values: revert SHA, revert timestamp, restoring tag
/// name, restoring timestamp.
pub type IncidentView = (Seq<char>, int, Option<Seq<char>>, Option<int>);

/// The view of an incident.
pub open spec fn incident_view(i: Incident) -> IncidentView {
    (i.revert_sha@, i.revert_ts as int, opt_view(i.restored_by), match i.restore_ts {
        Some(t) => Some(t as int),
        None => None,
    })
}

/// The incident a revert at `ts` opens: restored by the first tag deployed
/// strictly after it, unrestored when no tag follows.
pub open spec fn incident_spec(tags: Seq<Tag>, sha: Seq<char>, ts: int) -> IncidentView {
    match first_after(tags, ts) {
        Some(i) => (sha, ts, Some(tags[i].name@), Some(tags[i].deploy_ts as int)),
        None => (sha, ts, None, None),
    }
}

proof fn lemma_first_after_prefix(tags: Seq<Tag>, ts: int, k: int)
    requires
        0 <= k <= tags.len(),
        first_after(tags.take(k), ts) is Some,
    ensures
        first_after(tags, ts) == first_after(tags.take(k), ts),
    decreases tags.len() - k,
{
    if k < tags.len() {
        assert(tags.take(k + 1).drop_last() =~= tags.take(k));
        lemma_first_after_prefix(tags, ts, k + 1);
    } else {
        assert(tags.take(k) =~= tags);
    }
}

/// The restoring deploy is the first in deploy order that is strictly after
/// the revert; with none, every deploy is at or before it.
pub proof fn first_after_is_first(tags: Seq<Tag>, ts: int)
    ensures
        match first_after(tags, ts) {
            Some(i) => 0 <= i < tags.len() && tags[i].deploy_ts > ts && forall|j: int|
                0 <= j < i ==> #[trigger] tags[j].deploy_ts <= ts,
            None => forall|j: int| 0 <= j < tags.len() ==> #[trigger] tags[j].deploy_ts <= ts,
        },
    decreases tags.len(),
{
    if tags.len() > 0 {
        first_after_is_first(tags.drop_last(), ts);
        assert forall|j: int| 0 <= j < tags.len() - 1 implies tags.drop_last()[j] == tags[j] by {}
    }
}

/// Attributes one revert to its restoring deploy: the first tag in `tags`
/// (deploy order) deployed strictly after the revert.
///
/// Unrestored incidents are kept with no restoring tag: dropping them would
/// make the restore metric survivorship-biased.
pub fn incident_from(tags: &[Tag], revert_sha: String, revert_ts: i64) -> (inc: Incident)
    ensures
        incident_view(inc) == incident_spec(tags@, revert_sha@, revert_ts as int),
{
    let mut i: usize = 0;
    while i < tags.len()
        invariant
            i <= tags.len(),
            first_after(tags@.take(i as int), revert_ts as int) is None,
        decreases tags.len() - i,
    {
        proof {
            assert(tags@.take(i + 1).drop_last() =~= tags@.take(i as int));
        }
        if tags[i].deploy_ts > revert_ts {
            proof {
                lemma_first_after_prefix(tags@, revert_ts as int, i + 1);
            }
            return Incident {
                revert_sha,
                revert_ts,
                restored_by: Some(tags[i].name.clone()),
                restore_ts: Some(tags[i].deploy_ts),
            };
        }
        i = i + 1;
    }
    proof {
        assert(tags@.take(i as int) =~= tags@);
    }
    Incident { revert_sha, revert_ts, restored_by: None, restore_ts: None }
}

/// Whether a deploy falls inside the window `[ws, we]`.
pub open spec fn in_window(t: Tag, ws: int, we: int) -> bool {
    ws <= t.deploy_ts && t.deploy_ts <= we
}

/// Indices, into the deploy-ordered `tags`, of the deploys inside the
/// window, in deploy order.
pub open spec fn window_indices(tags: Seq<Tag>, ws: int, we: int) -> Seq<int>
    decreases tags.len(),
{
    if tags.len() == 0 {
        seq![]
    } else {
        let r = window_indices(tags.drop_last(), ws, we);
        if in_window(tags.last(), ws, we) {
            r.push(tags.len() - 1)
        } else {
            r
        }
    }
}

/// The separator of a git revision range.
pub open spec fn range_sep() -> Seq<char> {
    seq!['.', '.']
}

/// The name of the deploy before the one at `i`, if any.
pub open spec fn previous_of(tags: Seq<Tag>, i: int) -> Option<Seq<char>> {
    if i == 0 {
        None
    } else {
        Some(tags[i - 1].name@)
    }
}

/// The lead-time range of the deploy at `i`: `prev..tag`, or the tag alone
/// for the first deploy. The predecessor always comes from the full list,
/// so a window boundary never changes a range.
pub open spec fn lead_range(tags: Seq<Tag>, i: int) -> Seq<char> {
    if i == 0 {
        tags[i].name@
    } else {
        tags[i - 1].name@ + range_sep() + tags[i].name@
    }
}

/// The failure range of the deploy at `i`: `tag..next`, or `tag..HEAD` for
/// the newest deploy.
pub open spec fn failure_range(tags: Seq<Tag>, i: int) -> Seq<char> {
    if i + 1 < tags.len() {
        tags[i].name@ + range_sep() + tags[i + 1].name@
    } else {
        tags[i].name@ + range_sep() + seq!['H', 'E', 'A', 'D']
    }
}

/// The git work one in-window deploy needs: its position in the deploy
/// list, its predecessor, and the two ranges to scan.
pub struct DeployPlan {
    /// Index of the deploy in the deploy-ordered tag list.
    pub index: usize,
    /// Previous tag, when one exists.
    pub previous: Option<String>,
    /// Range that supplies the deploy's lead-time samples.
    pub range: String,
    /// Range that attributes failures to the deploy.
    pub failure_range: String,
}

/// `p` is the plan for the deploy at `i`.
pub open spec fn plan_matches(p: DeployPlan, tags: Seq<Tag>, i: int) -> bool {
    &&& p.index == i
    &&& opt_view(p.previous) == previous_of(tags, i)
    &&& p.range@ == lead_range(tags, i)
    &&& p.failure_range@ == failure_range(tags, i)
}

proof fn lemma_window_indices(tags: Seq<Tag>, ws: int, we: int)
    ensures
        window_indices(tags, ws, we).len() <= tags.len(),
        forall|j: int| 0 <= j < window_indices(tags, ws, we).len() ==> 0 <= #[trigger] window_indices(tags, ws, we)[j] < tags.len(),
    decreases tags.len(),
{
    if tags.len() > 0 {
        lemma_window_indices(tags.drop_last(), ws, we);
    }
}

/// `a..b` as a revision range.
fn range_text(a: &str, b: &str) -> (s: String)
    ensures
        s@ == a@ + range_sep() + b@,
{
    let mut s = owned(a);
    push_char(&mut s, '.');
    push_char(&mut s, '.');
    append_str(&mut s, b);
    proof {
        assert(s@ =~= a@ + range_sep() + b@);
    }
    s
}

/// Plans the deploys inside `[window_start, window_end]`: for each, in deploy
/// order, its predecessor and the lead-time and failure ranges to scan.
///
/// The window selects which deploys are measured, never which commits
/// contribute samples: a deploy inside the window drags in its whole range.
pub fn plan_deploys(tags: &[Tag], window_start: i64, window_end: i64) -> (plans: Vec<DeployPlan>)
    ensures
        plans.len() == window_indices(tags@, window_start as int, window_end as int).len(),
        forall|k: int| 0 <= k < plans.len() ==> #[trigger] plan_matches(plans@[k], tags@, window_indices(tags@, window_start as int, window_end as int)[k]),
{
    let ghost ws = window_start as int;
    let ghost we = window_end as int;
    let mut plans: Vec<DeployPlan> = Vec::new();
    let mut i: usize = 0;
    while i < tags.len()
        invariant
            i <= tags.len(),
            plans.len() == window_indices(tags@.take(i as int), ws, we).len(),
            forall|k: int| 0 <= k < plans.len() ==> #[trigger] plan_matches(plans@[k], tags@, window_indices(tags@.take(i as int), ws, we)[k]),
            ws == window_start,
            we == window_end,
        decreases tags.len() - i,
    {
        let ghost before = window_indices(tags@.take(i as int), ws, we);
        proof {
            assert(tags@.take(i + 1).drop_last() =~= tags@.take(i as int));
            assert(tags@.take(i + 1).last() == tags@[i as int]);
        }
        let tag = &tags[i];
        if window_start <= tag.deploy_ts && tag.deploy_ts <= window_end {
            let previous = if i == 0 {
                None
            } else {
                Some(tags[i - 1].name.clone())
            };
            let range = if i == 0 {
                tag.name.clone()
            } else {
                range_text(tags[i - 1].name.as_str(), tag.name.as_str())
            };
            let failure = if i + 1 < tags.len() {
                range_text(tag.name.as_str(), tags[i + 1].name.as_str())
            } else {
                range_text(tag.name.as_str(), "HEAD")
            };
            proof {
                reveal_strlit("HEAD");
                assert("HEAD"@ =~= seq!['H', 'E', 'A', 'D']);
            }
            let plan = DeployPlan { index: i, previous, range, failure_range: failure };
            assert(plan_matches(plan, tags@, i as int));
            plans.push(plan);
            proof {
                let now = window_indices(tags@.take(i + 1), ws, we);
                assert(now == before.push(i as int));
                assert forall|k: int| 0 <= k < plans.len() implies #[trigger] plan_matches(plans@[k], tags@, now[k]) by {
                    if k < plans.len() - 1 {
                        assert(now[k] == before[k]);
                    }
                }
            }
        }
        i = i + 1;
    }
    proof {
        assert(tags@.take(i as int) =~= tags@);
    }
    plans
}

/// One measured range, as recorded in the derivation manifest.
pub struct RangeRecord {
    /// Short tag name.
    pub tag: String,
    /// Previous tag, when one exists.
    pub previous: Option<String>,
    /// Git revision range that supplied this deploy's lead-time samples.
    pub range: String,
    /// Git revision range that attributed failures to this deploy
    /// (`T..next`, or `T..HEAD` for the newest deploy).
    pub failure_range: String,
    /// First-parent commit count of `range`.
    pub commits: i64,
    /// Commit timestamp of the deployed revision.
    pub deploy_ts: i64,
}

/// A range record as plain values.
pub open spec fn range_view(r: RangeRecord) -> (Seq<char>, Option<Seq<char>>, Seq<char>, Seq<char>, int, int) {
    (r.tag@, opt_view(r.previous), r.range@, r.failure_range@, r.commits as int, r.deploy_ts as int)
}

/// The record of the deploy at `i` whose range held `commits` commits.
pub open spec fn range_spec(tags: Seq<Tag>, i: int, commits: int) -> (Seq<char>, Option<Seq<char>>, Seq<char>, Seq<char>, int, int) {
    (tags[i].name@, previous_of(tags, i), lead_range(tags, i), failure_range(tags, i), commits, tags[i].deploy_ts as int)
}

/// What git reported for one planned deploy: the lead-time scan of its range
/// and the reverts `(sha, timestamp)` in its failure range.
pub struct DeployResult {
    pub lead: LeadScan,
    pub reverts: Vec<(String, i64)>,
}

/// What one pass over the in-window deploys produced.
pub struct DeployScan {
    /// Every range scanned, in deploy order.
    pub ranges: Vec<RangeRecord>,
    /// Every incident, ordered by `(revert_ts, revert_sha)`, each revert once.
    pub incidents: Vec<Incident>,
    /// Every lead-time sample, in scan order.
    pub samples: Vec<i64>,
    /// Commits timestamped after their deploy.
    pub clock_skew_commits: i64,
    /// Deploys whose failure range holds at least one revert.
    pub deploys_failed: i64,
}

/// Every lead-time sample of the results, in order.
pub open spec fn all_samples(rs: Seq<DeployResult>) -> Seq<i64>
    decreases rs.len(),
{
    if rs.len() == 0 {
        seq![]
    } else {
        all_samples(rs.drop_last()) + rs.last().lead.samples@
    }
}

/// The clock-skew counts of the results, summed.
pub open spec fn skew_total(rs: Seq<DeployResult>) -> int
    decreases rs.len(),
{
    if rs.len() == 0 {
        0
    } else {
        skew_total(rs.drop_last()) + rs.last().lead.clock_skew_commits
    }
}

/// How many results hold at least one revert.
pub open spec fn failed_deploys(rs: Seq<DeployResult>) -> int
    decreases rs.len(),
{
    if rs.len() == 0 {
        0
    } else {
        failed_deploys(rs.drop_last()) + if rs.last().reverts.len() > 0 {
            1int
        } else {
            0int
        }
    }
}

/// The incidents the reverts of one result open.
pub open spec fn revert_incidents(tags: Seq<Tag>, reverts: Seq<(String, i64)>) -> Seq<IncidentView> {
    reverts.map_values(|r: (String, i64)| incident_spec(tags, r.0@, r.1 as int))
}

/// Every incident the results open, in scan order, before sorting.
pub open spec fn raw_incidents(tags: Seq<Tag>, rs: Seq<DeployResult>) -> Seq<IncidentView>
    decreases rs.len(),
{
    if rs.len() == 0 {
        seq![]
    } else {
        raw_incidents(tags, rs.drop_last()) + revert_incidents(tags, rs.last().reverts@)
    }
}

/// The views of a list of incidents.
pub open spec fn incident_views(s: Seq<Incident>) -> Seq<IncidentView> {
    s.map_values(|i: Incident| incident_view(i))
}

/// The order incidents are reported in: revert timestamp, then SHA.
pub open spec fn incident_key_fn() -> spec_fn(Incident) -> (int, Seq<char>) {
    |i: Incident| (i.revert_ts as int, i.revert_sha@)
}

/// The order lead-time and restore samples are read in: the value itself.
pub open spec fn value_key_fn() -> spec_fn(i64) -> (int, Seq<char>) {
    |x: i64| (x as int, Seq::<char>::empty())
}

/// Appends a list of samples.
fn append_samples(out: &mut Vec<i64>, s: &Vec<i64>)
    ensures
        final(out)@ == old(out)@ + s@,
{
    let ghost start = out@;
    let mut j: usize = 0;
    while j < s.len()
        invariant
            j <= s.len(),
            out@ == start + s@.take(j as int),
        decreases s.len() - j,
    {
        out.push(s[j]);
        proof {
            assert(s@.take(j + 1) =~= s@.take(j as int).push(s@[j as int]));
        }
        j = j + 1;
    }
    proof {
        assert(s@.take(j as int) =~= s@);
    }
}

/// Opens an incident for each revert.
fn push_incidents(raw: &mut Vec<Incident>, tags: &[Tag], reverts: &Vec<(String, i64)>)
    ensures
        incident_views(final(raw)@) == incident_views(old(raw)@) + revert_incidents(tags@, reverts@),
{
    let ghost start = incident_views(raw@);
    let mut j: usize = 0;
    while j < reverts.len()
        invariant
            j <= reverts.len(),
            incident_views(raw@) == start + revert_incidents(tags@, reverts@.take(j as int)),
        decreases reverts.len() - j,
    {
        let ghost before = raw@;
        let inc = incident_from(tags, reverts[j].0.clone(), reverts[j].1);
        raw.push(inc);
        proof {
            assert(reverts@.take(j + 1) =~= reverts@.take(j as int).push(reverts@[j as int]));
            assert(incident_views(raw@) =~= incident_views(before).push(incident_view(inc)));
            assert(revert_incidents(tags@, reverts@.take(j + 1)) =~= revert_incidents(tags@, reverts@.take(j as int)).push(incident_view(inc)));
        }
        j = j + 1;
    }
    proof {
        assert(reverts@.take(j as int) =~= reverts@);
    }
}

/// The sort key of an incident.
fn incident_sort_key(i: &Incident) -> (k: SortKey)
    ensures
        k.view_key() == incident_key_fn()(*i),
{
    SortKey { num: i.revert_ts, text: to_chars(i.revert_sha.as_str()) }
}

/// Sort keys for a list of incidents.
fn incident_sort_keys(v: &Vec<Incident>) -> (keys: Vec<SortKey>)
    ensures
        keys.len() == v.len(),
        forall|k: int| 0 <= k < v.len() ==> #[trigger] keys@[k].view_key() == incident_key_fn()(v@[k]),
{
    let mut keys: Vec<SortKey> = Vec::new();
    let mut j: usize = 0;
    while j < v.len()
        invariant
            j <= v.len(),
            keys.len() == j,
            forall|k: int| 0 <= k < j ==> #[trigger] keys@[k].view_key() == incident_key_fn()(v@[k]),
        decreases v.len() - j,
    {
        keys.push(incident_sort_key(&v[j]));
        j = j + 1;
    }
    keys
}

/// Walks the in-window deploys once, given what git reported for each
/// planned deploy (in plan order): collects the ranges, the lead-time
/// samples, the clock-skew and failed-deploy counts, and the incidents,
/// which come out ordered by `(revert_ts, revert_sha)` with each revert once.
pub fn scan_deploys(tags: &[Tag], window_start: i64, window_end: i64, results: Vec<DeployResult>) -> (scan: DeployScan)
    requires
        results.len() == window_indices(tags@, window_start as int, window_end as int).len(),
        results.len() <= i64::MAX,
        forall|k: int| 0 <= k <= results.len() ==> i64::MIN <= #[trigger] skew_total(results@.take(k)) <= i64::MAX,
    ensures
        scan.ranges.len() == results.len(),
        forall|k: int| 0 <= k < results.len() ==> #[trigger] range_view(scan.ranges@[k]) == range_spec(tags@, window_indices(tags@, window_start as int, window_end as int)[k], results@[k].lead.commits as int),
        scan.samples@ == all_samples(results@),
        scan.clock_skew_commits == skew_total(results@),
        scan.deploys_failed == failed_deploys(results@),
        exists|raw: Seq<Incident>, sorted: Seq<Incident>, p: Seq<int>|
            #[trigger] stable_sort_of(sorted, raw, p, incident_key_fn())
            && incident_views(raw) == raw_incidents(tags@, results@)
            && scan.incidents@ == dedup_text(None, sorted, incident_key_fn()),
{
    let ghost wi = window_indices(tags@, window_start as int, window_end as int);
    let plans = plan_deploys(tags, window_start, window_end);
    proof {
        lemma_window_indices(tags@, window_start as int, window_end as int);
    }
    let mut ranges: Vec<RangeRecord> = Vec::new();
    let mut raw: Vec<Incident> = Vec::new();
    let mut samples: Vec<i64> = Vec::new();
    let mut skew: i64 = 0;
    let mut failed: i64 = 0;
    let mut k: usize = 0;
    while k < results.len()
        invariant
            k <= results.len(),
            results.len() == plans.len() == wi.len(),
            results.len() <= i64::MAX,
            forall|j: int| 0 <= j < plans.len() ==> #[trigger] plan_matches(plans@[j], tags@, wi[j]),
            forall|j: int| 0 <= j < wi.len() ==> 0 <= #[trigger] wi[j] < tags.len(),
            forall|j: int| 0 <= j <= results.len() ==> i64::MIN <= #[trigger] skew_total(results@.take(j)) <= i64::MAX,
            ranges.len() == k,
            forall|j: int| 0 <= j < k ==> #[trigger] range_view(ranges@[j]) == range_spec(tags@, wi[j], results@[j].lead.commits as int),
            samples@ == all_samples(results@.take(k as int)),
            skew == skew_total(results@.take(k as int)),
            failed == failed_deploys(results@.take(k as int)),
            0 <= failed <= k,
            incident_views(raw@) == raw_incidents(tags@, results@.take(k as int)),
        decreases results.len() - k,
    {
        proof {
            assert(results@.take(k + 1).drop_last() =~= results@.take(k as int));
            assert(results@.take(k + 1).last() == results@[k as int]);
        }
        let plan = &plans[k];
        let idx = plan.index;
        assert(plan_matches(plans@[k as int], tags@, wi[k as int]));
        let r = &results[k];
        assert(i64::MIN <= skew_total(results@.take(k + 1)) <= i64::MAX);
        skew = skew + r.lead.clock_skew_commits;
        append_samples(&mut samples, &r.lead.samples);
        if r.reverts.len() > 0 {
            failed = failed + 1;
        }
        push_incidents(&mut raw, tags, &r.reverts);
        let previous = match &plan.previous {
            Some(p) => Some(p.clone()),
            None => None,
        };
        ranges.push(RangeRecord {
            tag: tags[idx].name.clone(),
            previous,
            range: plan.range.clone(),
            failure_range: plan.failure_range.clone(),
            commits: r.lead.commits,
            deploy_ts: tags[idx].deploy_ts,
        });
        k = k + 1;
    }
    proof {
        assert(results@.take(k as int) =~= results@);
    }
    let keys = incident_sort_keys(&raw);
    let ghost raw_items = raw@;
    let (sorted, Ghost(p)) = sort_by_keys(raw, keys, Ghost(incident_key_fn()));
    let ghost sorted_items = sorted@;
    let keys2 = incident_sort_keys(&sorted);
    let incidents = dedup_by_text(sorted, keys2, Ghost(incident_key_fn()));
    proof {
        assert(stable_sort_of(sorted_items, raw_items, p, incident_key_fn()));
    }
    DeployScan { ranges, incidents, samples, clock_skew_commits: skew, deploys_failed: failed }
}

/// Where the snapshot's numbers came from.
#[derive(Debug, Clone, Copy, PartialEq, Eq, Structural)]
pub enum Source {
    /// Git history only: hermetic, offline, clock-injected.
    Git,
    /// Git history plus opt-in `gh` enrichment.
    Gh,
}

impl Source {
    /// Stable lowercase label persisted in the snapshot.
    pub fn label(self) -> (s: &'static str)
        ensures
            self == Source::Git ==> s@ == "git"@,
            self == Source::Gh ==> s@ == "gh"@,
    {
        match self {
            Source::Git => "git",
            Source::Gh => "gh",
        }
    }
}

/// The measurement clock from a reading of the system clock: whole seconds
/// since the epoch, saturated at `i64::MAX`, and `0` before the epoch.
pub open spec fn clock_now(secs: Option<u64>) -> int {
    match secs {
        Some(s) => if s <= i64::MAX {
            s as int
        } else {
            i64::MAX as int
        },
        None => 0,
    }
}

/// The window a run measures: `--days` overrides the policy's window for
/// the run (never the file), and must be positive; `Err` carries the
/// rejected value.
pub fn run_window_days(days: Option<i64>, policy_window_days: i64) -> (r: Result<i64, i64>)
    ensures
        match days {
            None => r == Ok::<i64, i64>(policy_window_days),
            Some(d) => if d <= 0 {
                r == Err::<i64, i64>(d)
            } else {
                r == Ok::<i64, i64>(d)
            },
        },
{
    match days {
        None => Ok(policy_window_days),
        Some(d) => if d <= 0 {
            Err(d)
        } else {
            Ok(d)
        },
    }
}

/// Converts a system-clock reading into the measurement clock.
pub fn now_from_clock(secs: Option<u64>) -> (t: i64)
    ensures
        t == clock_now(secs),
{
    match secs {
        Some(s) => if s <= i64::MAX as u64 {
            s as i64
        } else {
            i64::MAX
        },
        None => 0,
    }
}

/// Resolves the measurement clock: the explicit `--now` wins, otherwise the
/// system clock (non-negative).
pub fn resolve_now(explicit: Option<i64>) -> (t: i64)
    ensures
        explicit matches Some(x) ==> t == x,
        explicit is None ==> t >= 0,
{
    match explicit {
        Some(x) => x,
        None => now_from_clock(system_secs_since_epoch()),
    }
}

/// Rank read by the nearest-rank percentile: `max(ceil(pct * n / 100), 1)`.
pub open spec fn nearest_rank(pct: int, n: int) -> int {
    let r = (pct * n + 99) / 100;
    if r < 1 {
        1
    } else {
        r
    }
}

/// Nearest-rank percentile of `sorted` (read 1-based at the rank).
pub open spec fn percentile_of(sorted: Seq<i64>, pct: int) -> Option<i64> {
    if sorted.len() == 0 {
        None
    } else if nearest_rank(pct, sorted.len() as int) <= sorted.len() {
        Some(sorted[nearest_rank(pct, sorted.len() as int) - 1])
    } else {
        None
    }
}

/// Nearest-rank percentile over an ascending-sorted slice.
///
/// Rank is `ceil(pct * n / 100)` computed in integers (at least 1), then read
/// 1-based; `None` for an empty slice or a rank past the end.
pub fn percentile(sorted: &[i64], pct: u32) -> (r: Option<i64>)
    ensures
        r == percentile_of(sorted@, pct as int),
{
    if sorted.len() == 0 {
        return None;
    }
    let n: u128 = sorted.len() as u128;
    assert(pct as u128 * n <= 0xffff_ffff * 0xffff_ffff_ffff_ffff) by (nonlinear_arith)
        requires
            pct <= 0xffff_ffff,
            n <= 0xffff_ffff_ffff_ffff,
    ;
    let product: u128 = pct as u128 * n;
    let q: u128 = product / 100;
    let rank0: u128 = if product % 100 == 0 {
        q
    } else {
        q + 1
    };
    let rank: u128 = if rank0 < 1 {
        1
    } else {
        rank0
    };
    proof {
        assert(rank0 == (product + 99) / 100);
    }
    if rank > n {
        return None;
    }
    Some(sorted[(rank - 1) as usize])
}

/// `s` is in non-decreasing order.
pub open spec fn values_sorted(s: Seq<i64>) -> bool {
    forall|i: int, j: int| 0 <= i < j < s.len() ==> s[i] <= s[j]
}

/// A stable sort by value leaves the values in non-decreasing order.
pub proof fn value_sort_is_sorted(s: Seq<i64>, v: Seq<i64>, p: Seq<int>)
    requires
        stable_sort_of(s, v, p, value_key_fn()),
    ensures
        values_sorted(s),
{
    assert forall|i: int, j: int| 0 <= i < j < s.len() implies s[i] <= s[j] by {
        assert(key_le(s.map_values(value_key_fn())[i], s.map_values(value_key_fn())[j]));
    }
}

/// The nearest-rank percentile is monotone in the percentage: over sorted
/// values a lower percentage never reads a larger value, and whenever the
/// higher one is measured the lower one is too.
pub proof fn percentile_monotone(s: Seq<i64>, a: int, b: int)
    requires
        values_sorted(s),
        0 <= a <= b,
    ensures
        percentile_of(s, b) is Some ==> percentile_of(s, a) is Some,
        percentile_of(s, a) matches Some(x) ==> (percentile_of(s, b) matches Some(y) ==> x <= y),
{
    let n = s.len() as int;
    if n > 0 {
        assert((a * n + 99) / 100 <= (b * n + 99) / 100) by (nonlinear_arith)
            requires
                0 <= a <= b,
                n > 0,
        ;
    }
}

/// Up to 100 percent of a non-empty list is always measured.
pub proof fn percentile_defined(s: Seq<i64>, pct: int)
    requires
        0 <= pct <= 100,
    ensures
        (percentile_of(s, pct) is Some) == (s.len() > 0),
{
    let n = s.len() as int;
    if n > 0 {
        assert((pct * n + 99) / 100 <= n) by (nonlinear_arith)
            requires
                0 <= pct <= 100,
                n > 0,
        ;
    }
}

/// The integer part of a pinned DORA policy: everything but the float rate
/// ceiling, which `limits` carries in basis points.
pub struct PolicySettings {
    /// Window length in days.
    pub window_days: i64,
    /// Tag glob that selects the deploys.
    pub tag_glob: String,
    /// Recorded merge strategy.
    pub merge_strategy: String,
    /// Percentile estimator.
    pub percentile_method: String,
    /// Revert predicate.
    pub revert_pattern: String,
    /// Author emails whose commits contribute no lead-time sample.
    pub bot_allowlist: Vec<String>,
    /// Threshold bands.
    pub limits: PolicyLimits,
}

/// The recorded provenance of one measurement: the definition, the scope,
/// the exact ranges scanned, and the incidents behind failure attribution.
pub struct Derivation {
    /// Tag glob that selected the deploys.
    pub tag_glob: String,
    /// Recorded merge strategy.
    pub merge_strategy: String,
    /// Percentile estimator used.
    pub percentile_method: String,
    /// Revert predicate applied.
    pub revert_pattern: String,
    /// Window actually resolved for this run.
    pub window_days: i64,
    /// Hex SHA-256 of the raw policy bytes.
    pub policy_digest: String,
    /// Commits timestamped after their deploy (clock-skew evidence).
    pub clock_skew_commits: i64,
    /// Every range scanned, in deploy order.
    pub ranges: Vec<RangeRecord>,
    /// Every incident observed in the scanned ranges.
    pub incidents: Vec<Incident>,
}

/// The derived snapshot. Integers only, so output is identical across
/// platforms; breaches are the rule findings, in rule order.
pub struct DoraSnapshot {
    /// Window length in days used for this run.
    pub window_days: i64,
    /// Inclusive start of the resolved window.
    pub window_start: i64,
    /// End of the resolved window.
    pub window_end: i64,
    /// `git` or `gh`.
    pub source: String,
    /// `HEAD` revision at measurement time.
    pub source_rev: String,
    /// Deploys measured in the window.
    pub deploy_count: i64,
    /// Deploys whose own failure range contains at least one revert.
    pub deploys_failed: i64,
    /// Tags of the measured deploys, in deploy order.
    pub deploy_tags: Vec<String>,
    /// Lead-time samples behind the percentiles.
    pub lead_samples: i64,
    /// Median lead time in seconds, `None` with no samples.
    pub lead_p50_seconds: Option<i64>,
    /// 90th percentile lead time in seconds, `None` with no samples.
    pub lead_p90_seconds: Option<i64>,
    /// Median restore time over restored incidents, `None` when none.
    pub mttr_seconds: Option<i64>,
    /// Incidents with a restoring deploy.
    pub mttr_restored: i64,
    /// Incidents still unrestored.
    pub mttr_unrestored: i64,
    /// Threshold breaches, in rule order.
    pub breaches: Vec<BreachFinding>,
    /// `sha256:`-prefixed digest of the pinned policy.
    pub policy_fingerprint: String,
    /// Full derivation manifest.
    pub derivation: Derivation,
}

/// Why a snapshot could not be assembled.
#[derive(Debug, Clone, Copy, PartialEq, Eq, Structural)]
pub enum SnapshotError {
    /// A count does not fit in `i64`.
    CountOverflow,
}

/// Restore durations (`restore_ts - revert_ts`) of the restored incidents, in
/// order.
pub open spec fn restore_durations(incs: Seq<Incident>) -> Seq<i64>
    decreases incs.len(),
{
    if incs.len() == 0 {
        seq![]
    } else {
        let r = restore_durations(incs.drop_last());
        match incs.last().restore_ts {
            Some(t) => r.push((t - incs.last().revert_ts) as i64),
            None => r,
        }
    }
}

/// How many incidents are unrestored.
pub open spec fn unrestored_count(incs: Seq<Incident>) -> int
    decreases incs.len(),
{
    if incs.len() == 0 {
        0
    } else {
        unrestored_count(incs.drop_last()) + if incs.last().restore_ts is None {
            1int
        } else {
            0int
        }
    }
}

/// The incident's restore duration fits in `i64`.
pub open spec fn restore_fits(i: Incident) -> bool {
    match i.restore_ts {
        Some(t) => i64::MIN <= t - i.revert_ts <= i64::MAX,
        None => true,
    }
}

/// Restored plus unrestored incidents are all the incidents.
pub proof fn restore_counts_partition(incs: Seq<Incident>)
    ensures
        restore_durations(incs).len() + unrestored_count(incs) == incs.len(),
    decreases incs.len(),
{
    if incs.len() > 0 {
        restore_counts_partition(incs.drop_last());
    }
}

/// Sorts values ascending.
fn sorted_values(v: Vec<i64>) -> (out: (Vec<i64>, Ghost<Seq<int>>))
    ensures
        stable_sort_of(out.0@, v@, out.1@, value_key_fn()),
{
    let mut keys: Vec<SortKey> = Vec::new();
    let mut j: usize = 0;
    while j < v.len()
        invariant
            j <= v.len(),
            keys.len() == j,
            forall|k: int| 0 <= k < j ==> #[trigger] keys@[k].view_key() == value_key_fn()(v@[k]),
        decreases v.len() - j,
    {
        let text: Vec<char> = Vec::new();
        keys.push(SortKey { num: v[j], text });
        proof {
            assert(keys@[j as int].view_key().1 =~= Seq::<char>::empty());
        }
        j = j + 1;
    }
    sort_by_keys(v, keys, Ghost(value_key_fn()))
}

/// The restore durations of the restored incidents, in order.
fn durations(incs: &Vec<Incident>) -> (out: Vec<i64>)
    requires
        forall|j: int| 0 <= j < incs.len() ==> #[trigger] restore_fits(incs@[j]),
    ensures
        out@ == restore_durations(incs@),
{
    let mut out: Vec<i64> = Vec::new();
    let mut j: usize = 0;
    while j < incs.len()
        invariant
            j <= incs.len(),
            forall|k: int| 0 <= k < incs.len() ==> #[trigger] restore_fits(incs@[k]),
            out@ == restore_durations(incs@.take(j as int)),
        decreases incs.len() - j,
    {
        proof {
            assert(incs@.take(j + 1).drop_last() =~= incs@.take(j as int));
            assert(restore_fits(incs@[j as int]));
        }
        match incs[j].restore_ts {
            Some(t) => out.push(t - incs[j].revert_ts),
            None => {},
        }
        j = j + 1;
    }
    proof {
        assert(incs@.take(j as int) =~= incs@);
    }
    out
}

/// How many incidents are unrestored.
fn count_unrestored(incs: &Vec<Incident>) -> (n: usize)
    ensures
        n == unrestored_count(incs@),
{
    let mut n: usize = 0;
    let mut j: usize = 0;
    while j < incs.len()
        invariant
            j <= incs.len(),
            n == unrestored_count(incs@.take(j as int)),
            n <= j,
        decreases incs.len() - j,
    {
        proof {
            assert(incs@.take(j + 1).drop_last() =~= incs@.take(j as int));
        }
        if incs[j].restore_ts.is_none() {
            n = n + 1;
        }
        j = j + 1;
    }
    proof {
        assert(incs@.take(j as int) =~= incs@);
    }
    n
}

/// The rule inputs a snapshot carries.
pub open spec fn rule_inputs_of(s: DoraSnapshot) -> RuleInputs {
    RuleInputs {
        deploy_count: s.deploy_count,
        deploys_failed: s.deploys_failed,
        lead_p90_seconds: s.lead_p90_seconds,
        mttr_seconds: s.mttr_seconds,
        mttr_restored: s.mttr_restored,
        mttr_unrestored: s.mttr_unrestored,
    }
}

/// A count of the scan exceeds `i64`.
pub open spec fn scan_counts_overflow(scan: DeployScan) -> bool {
    ||| scan.ranges.len() > i64::MAX
    ||| scan.samples.len() > i64::MAX
    ||| restore_durations(scan.incidents@).len() > i64::MAX
    ||| unrestored_count(scan.incidents@) > i64::MAX
}

/// `snap` is the snapshot of `scan` under `settings`, measured at `now`.
pub open spec fn snapshot_of(
    snap: DoraSnapshot,
    settings: PolicySettings,
    now: int,
    source: Source,
    source_rev: Seq<char>,
    policy_digest: Seq<char>,
    scan: DeployScan,
) -> bool {
    &&& snap.window_days == settings.window_days
    &&& snap.window_end == now
    &&& snap.window_start == now - settings.window_days * 86_400
    &&& snap.source@ == (if source == Source::Git {
        "git"@
    } else {
        "gh"@
    })
    &&& snap.source_rev@ == source_rev
    &&& snap.deploy_count == scan.ranges.len()
    &&& snap.deploys_failed == scan.deploys_failed
    &&& snap.deploy_tags.len() == scan.ranges.len()
    &&& (forall|k: int| 0 <= k < scan.ranges.len() ==> #[trigger] snap.deploy_tags@[k]@ == scan.ranges@[k].tag@)
    &&& snap.lead_samples == scan.samples.len()
    &&& (exists|s: Seq<i64>, p: Seq<int>|
        #[trigger] stable_sort_of(s, scan.samples@, p, value_key_fn()) && snap.lead_p50_seconds
            == percentile_of(s, 50) && snap.lead_p90_seconds == percentile_of(s, 90))
    &&& (exists|s: Seq<i64>, p: Seq<int>|
        #[trigger] stable_sort_of(s, restore_durations(scan.incidents@), p, value_key_fn())
            && snap.mttr_seconds == percentile_of(s, 50))
    &&& snap.mttr_restored == restore_durations(scan.incidents@).len()
    &&& snap.mttr_unrestored == unrestored_count(scan.incidents@)
    &&& snap.breaches@ == breach_list(rule_inputs_of(snap), settings.limits)
    &&& snap.policy_fingerprint@ == seq!['s', 'h', 'a', '2', '5', '6', ':'] + policy_digest
    &&& snap.derivation.tag_glob@ == settings.tag_glob@
    &&& snap.derivation.merge_strategy@ == settings.merge_strategy@
    &&& snap.derivation.percentile_method@ == settings.percentile_method@
    &&& snap.derivation.revert_pattern@ == settings.revert_pattern@
    &&& snap.derivation.window_days == settings.window_days
    &&& snap.derivation.policy_digest@ == policy_digest
    &&& snap.derivation.clock_skew_commits == scan.clock_skew_commits
    &&& snap.derivation.ranges@ == scan.ranges@
    &&& snap.derivation.incidents@ == scan.incidents@
}

/// Copies the tag of each range.
fn range_tags(ranges: &Vec<RangeRecord>) -> (tags: Vec<String>)
    ensures
        tags.len() == ranges.len(),
        forall|k: int| 0 <= k < ranges.len() ==> #[trigger] tags@[k]@ == ranges@[k].tag@,
{
    let mut tags: Vec<String> = Vec::new();
    let mut j: usize = 0;
    while j < ranges.len()
        invariant
            j <= ranges.len(),
            tags.len() == j,
            forall|k: int| 0 <= k < j ==> #[trigger] tags@[k]@ == ranges@[k].tag@,
        decreases ranges.len() - j,
    {
        tags.push(ranges[j].tag.clone());
        j = j + 1;
    }
    tags
}

/// Assembles the snapshot from one scan of the in-window deploys: the
/// window, the counts, the percentiles over the sorted samples and restore
/// durations, the policy fingerprint and derivation manifest, and the
/// threshold breaches. Fails only when a count does not fit in `i64`.
pub fn derive_snapshot(
    settings: &PolicySettings,
    now: i64,
    source: Source,
    source_rev: String,
    policy_digest: String,
    scan: DeployScan,
) -> (r: Result<DoraSnapshot, SnapshotError>)
    requires
        i64::MIN <= settings.window_days * 86_400 <= i64::MAX,
        i64::MIN <= now - settings.window_days * 86_400 <= i64::MAX,
        forall|j: int| 0 <= j < scan.incidents.len() ==> #[trigger] restore_fits(scan.incidents@[j]),
        rules_fit(scan.ranges.len() as int, scan.deploys_failed as int, settings.limits),
    ensures
        r is Err <==> scan_counts_overflow(scan),
        r matches Ok(snap) ==> snapshot_of(snap, *settings, now as int, source, source_rev@, policy_digest@, scan),
        r matches Ok(snap) ==> (snap.lead_p50_seconds is Some <==> snap.lead_samples > 0) && (snap.lead_p90_seconds is Some <==> snap.lead_samples > 0),
        r matches Ok(snap) ==> (snap.lead_p50_seconds matches Some(a) ==> (snap.lead_p90_seconds matches Some(b) ==> a <= b)),
        r matches Ok(snap) ==> snap.mttr_restored + snap.mttr_unrestored == scan.incidents.len(),
        r matches Ok(snap) ==> (snap.mttr_seconds is Some <==> snap.mttr_restored > 0),
{
    let DeployScan { ranges, incidents, samples, clock_skew_commits, deploys_failed } = scan;
    let restored = durations(&incidents);
    let unrestored = count_unrestored(&incidents);
    proof {
        restore_counts_partition(incidents@);
    }
    let limit: u64 = 0x7fff_ffff_ffff_ffff;
    if ranges.len() as u64 > limit || samples.len() as u64 > limit || restored.len() as u64 > limit
        || unrestored as u64 > limit {
        return Err(SnapshotError::CountOverflow);
    }
    let sample_count = samples.len() as i64;
    let restored_count = restored.len() as i64;
    let (sorted_samples, Ghost(ps)) = sorted_values(samples);
    let (sorted_restored, Ghost(pr)) = sorted_values(restored);
    let lead_p50 = percentile(sorted_samples.as_slice(), 50);
    let lead_p90 = percentile(sorted_samples.as_slice(), 90);
    let mttr = percentile(sorted_restored.as_slice(), 50);
    proof {
        value_sort_is_sorted(sorted_samples@, scan.samples@, ps);
        percentile_monotone(sorted_samples@, 50, 90);
        percentile_defined(sorted_samples@, 50);
        percentile_defined(sorted_samples@, 90);
        percentile_defined(sorted_restored@, 50);
    }
    let deploy_tags = range_tags(&ranges);
    let window_start = now - settings.window_days * SECONDS_PER_DAY;
    let source_label = owned(source.label());
    let fingerprint = concat("sha256:", policy_digest.as_str());
    proof {
        reveal_strlit("sha256:");
        reveal_strlit("git");
        reveal_strlit("gh");
        assert("sha256:"@ =~= seq!['s', 'h', 'a', '2', '5', '6', ':']);
    }
    let mut snap = DoraSnapshot {
        window_days: settings.window_days,
        window_start,
        window_end: now,
        source: source_label,
        source_rev,
        deploy_count: ranges.len() as i64,
        deploys_failed,
        deploy_tags,
        lead_samples: sample_count,
        lead_p50_seconds: lead_p50,
        lead_p90_seconds: lead_p90,
        mttr_seconds: mttr,
        mttr_restored: restored_count,
        mttr_unrestored: unrestored as i64,
        breaches: Vec::new(),
        policy_fingerprint: fingerprint,
        derivation: Derivation {
            tag_glob: settings.tag_glob.clone(),
            merge_strategy: settings.merge_strategy.clone(),
            percentile_method: settings.percentile_method.clone(),
            revert_pattern: settings.revert_pattern.clone(),
            window_days: settings.window_days,
            policy_digest,
            clock_skew_commits,
            ranges,
            incidents,
        },
    };
    let inputs = RuleInputs {
        deploy_count: snap.deploy_count,
        deploys_failed: snap.deploys_failed,
        lead_p90_seconds: snap.lead_p90_seconds,
        mttr_seconds: snap.mttr_seconds,
        mttr_restored: snap.mttr_restored,
        mttr_unrestored: snap.mttr_unrestored,
    };
    snap.breaches = breaches(&inputs, &settings.limits);
    proof {
        assert(stable_sort_of(sorted_samples@, scan.samples@, ps, value_key_fn()));
        assert(stable_sort_of(sorted_restored@, restore_durations(scan.incidents@), pr, value_key_fn()));
    }
    Ok(snap)
}

} // verus!
