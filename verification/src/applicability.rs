//! Change-aware sensor selection with explanations.
//!
//! The harness decides which sensors the current change needs. Sensors
//! without `when-changed` are always applicable. Selection is deterministic:
//! the same candidates and changed files give the same selected/skipped
//! split with the same reasons.
use vstd::prelude::*;

use crate::changes::{file_paths, str_views, ChangedFiles};
use crate::config::{SensorSpec, SensorView};
use crate::glob::{build_glob_set, compile_glob, glob_compiles, glob_set_builds, glob_set_match, glob_set_matches};
use crate::text::{append_str, owned, string_views};

verus! {

/// A sensor the current change requires, with its selection reason.
#[derive(Debug, PartialEq, Eq)]
pub struct Selected {
    /// Sensor name as configured.
    pub name: String,
    /// Why it was selected (matching pattern, no constraint, fail-closed).
    pub reason: String,
}

/// A sensor the current change does not require, with its skip reason.
#[derive(Debug, PartialEq, Eq)]
pub struct Skipped {
    /// Sensor name as configured.
    pub name: String,
    /// Why it was skipped (no configured path matched).
    pub reason: String,
}

/// Deterministic applicability split for one candidate sensor list.
#[derive(Debug, PartialEq, Eq)]
pub struct Selection {
    /// Applicable sensors, in candidate order.
    pub selected: Vec<Selected>,
    /// Inapplicable sensors, in candidate order.
    pub skipped: Vec<Skipped>,
}

/// Reason recorded when change discovery failed and every sensor was kept.
pub const FAIL_CLOSED_REASON: &'static str = "change discovery failed; selected fail-closed";

/// Reason recorded when selection runs without `--changed`.
pub const UNFILTERED_REASON: &'static str = "change filtering disabled; always applicable";

/// Reason recorded for a sensor without `when-changed`.
pub const UNCONSTRAINED_REASON: &'static str = "no applicability constraint (`when-changed` unset)";

/// Reason recorded for a skipped sensor.
pub const NO_MATCH_REASON: &'static str = "no configured path matched";

/// The names and reasons of selected sensors.
pub open spec fn selected_views(v: Seq<Selected>) -> Seq<(Seq<char>, Seq<char>)> {
    v.map_values(|s: Selected| (s.name@, s.reason@))
}

/// The names and reasons of skipped sensors.
pub open spec fn skipped_views(v: Seq<Skipped>) -> Seq<(Seq<char>, Seq<char>)> {
    v.map_values(|s: Skipped| (s.name@, s.reason@))
}

impl Selection {
    /// Names of the selected sensors, in candidate order.
    pub fn selected_names(&self) -> (names: Vec<String>)
        ensures
            string_views(names@) == selected_views(self.selected@).map_values(|p: (Seq<char>, Seq<char>)| p.0),
    {
        let mut names: Vec<String> = Vec::new();
        let mut i: usize = 0;
        while i < self.selected.len()
            invariant
                i <= self.selected.len(),
                string_views(names@) == selected_views(self.selected@).map_values(|p: (Seq<char>, Seq<char>)| p.0).take(i as int),
            decreases self.selected.len() - i,
        {
            let ghost before = names@;
            names.push(self.selected[i].name.clone());
            proof {
                let all = selected_views(self.selected@).map_values(|p: (Seq<char>, Seq<char>)| p.0);
                assert(string_views(names@) =~= string_views(before).push(all[i as int]));
                assert(all.take(i + 1) =~= all.take(i as int).push(all[i as int]));
            }
            i = i + 1;
        }
        proof {
            let all = selected_views(self.selected@).map_values(|p: (Seq<char>, Seq<char>)| p.0);
            assert(all.take(i as int) =~= all);
        }
        names
    }
}

/// Whether `pattern` compiles and builds into a matcher (a one-glob set).
pub open spec fn pattern_usable(pattern: Seq<char>) -> bool {
    glob_compiles(pattern, true) && glob_set_builds(seq![pattern], true)
}

/// Whether `pattern` matches one of `paths`.
pub open spec fn matches_any(pattern: Seq<char>, paths: Seq<Seq<char>>) -> bool {
    exists|k: int| 0 <= k < paths.len() && glob_set_matches(seq![pattern], true, paths[k])
}

/// The first pattern (in configured order) that matches a changed path.
pub open spec fn first_hit(patterns: Seq<Seq<char>>, paths: Seq<Seq<char>>) -> Option<Seq<char>>
    decreases patterns.len(),
{
    if patterns.len() == 0 {
        None
    } else if matches_any(patterns[0], paths) {
        Some(patterns[0])
    } else {
        first_hit(patterns.drop_first(), paths)
    }
}

/// Whether the sensor is applicable, and why.
pub open spec fn decision(sensor: SensorView, paths: Seq<Seq<char>>) -> (bool, Seq<char>) {
    if sensor.6.len() == 0 {
        (true, UNCONSTRAINED_REASON@)
    } else if exists|k: int| 0 <= k < sensor.6.len() && !pattern_usable(sensor.6[k]) {
        (true, FAIL_CLOSED_REASON@)
    } else {
        match first_hit(sensor.6, paths) {
            Some(p) => (true, "matched `"@ + p + "`"@),
            None => (false, NO_MATCH_REASON@),
        }
    }
}

/// The views of candidate sensors.
pub open spec fn candidate_views<'a>(c: Seq<&'a SensorSpec>) -> Seq<SensorView> {
    c.map_values(|s: &'a SensorSpec| s@)
}

/// The selected sensors and reasons of a split, in candidate order.
pub open spec fn selected_of(c: Seq<SensorView>, paths: Seq<Seq<char>>, failed: bool) -> Seq<(Seq<char>, Seq<char>)>
    decreases c.len(),
{
    if c.len() == 0 {
        seq![]
    } else {
        let r = selected_of(c.drop_last(), paths, failed);
        if failed {
            r.push((c.last().0, FAIL_CLOSED_REASON@))
        } else if decision(c.last(), paths).0 {
            r.push((c.last().0, decision(c.last(), paths).1))
        } else {
            r
        }
    }
}

/// The skipped sensors and reasons of a split, in candidate order.
pub open spec fn skipped_of(c: Seq<SensorView>, paths: Seq<Seq<char>>, failed: bool) -> Seq<(Seq<char>, Seq<char>)>
    decreases c.len(),
{
    if c.len() == 0 {
        seq![]
    } else {
        let r = skipped_of(c.drop_last(), paths, failed);
        if !failed && !decision(c.last(), paths).0 {
            r.push((c.last().0, decision(c.last(), paths).1))
        } else {
            r
        }
    }
}

/// Every candidate lands in exactly one of the two lists.
pub proof fn selection_partitions(c: Seq<SensorView>, paths: Seq<Seq<char>>, failed: bool)
    ensures
        selected_of(c, paths, failed).len() + skipped_of(c, paths, failed).len() == c.len(),
        failed ==> skipped_of(c, paths, failed).len() == 0,
    decreases c.len(),
{
    if c.len() > 0 {
        selection_partitions(c.drop_last(), paths, failed);
    }
}

/// [`first_hit`] names no pattern exactly when no pattern matches any path.
proof fn lemma_first_hit_none(patterns: Seq<Seq<char>>, paths: Seq<Seq<char>>)
    ensures
        first_hit(patterns, paths) is None <==> forall|i: int, k: int|
            0 <= i < patterns.len() && 0 <= k < paths.len() ==> !glob_set_matches(
                seq![#[trigger] patterns[i]],
                true,
                #[trigger] paths[k],
            ),
    decreases patterns.len(),
{
    if patterns.len() > 0 {
        let rest = patterns.drop_first();
        lemma_first_hit_none(rest, paths);
        if first_hit(patterns, paths) is None {
            assert forall|i: int, k: int| 0 <= i < patterns.len() && 0 <= k < paths.len() implies !glob_set_matches(
                seq![#[trigger] patterns[i]],
                true,
                #[trigger] paths[k],
            ) by {
                if i > 0 {
                    assert(patterns[i] == rest[i - 1]);
                    assert(!glob_set_matches(seq![rest[i - 1]], true, paths[k]));
                }
            }
        } else if matches_any(patterns[0], paths) {
            let k0 = choose|k0: int| 0 <= k0 < paths.len() && glob_set_matches(seq![patterns[0]], true, paths[k0]);
            assert(glob_set_matches(seq![patterns[0]], true, paths[k0]));
        } else {
            let (a, b) = choose|a: int, b: int|
                0 <= a < rest.len() && 0 <= b < paths.len() && glob_set_matches(seq![rest[a]], true, paths[b]);
            assert(patterns[a + 1] == rest[a]);
            assert(glob_set_matches(seq![patterns[a + 1]], true, paths[b]));
        }
    }
}

/// A pattern that matches some path, with no earlier pattern matching any,
/// is the one [`first_hit`] names.
proof fn lemma_first_hit_at(patterns: Seq<Seq<char>>, paths: Seq<Seq<char>>, i: int, k: int)
    requires
        0 <= i < patterns.len(),
        0 <= k < paths.len(),
        glob_set_matches(seq![patterns[i]], true, paths[k]),
        forall|j: int, m: int|
            0 <= j < i && 0 <= m < paths.len() ==> !glob_set_matches(
                seq![#[trigger] patterns[j]],
                true,
                #[trigger] paths[m],
            ),
    ensures
        first_hit(patterns, paths) == Some(patterns[i]),
    decreases i,
{
    if i == 0 {
        assert(matches_any(patterns[0], paths));
    } else {
        let rest = patterns.drop_first();
        if matches_any(patterns[0], paths) {
            let k0 = choose|k0: int| 0 <= k0 < paths.len() && glob_set_matches(seq![patterns[0]], true, paths[k0]);
            assert(!glob_set_matches(seq![patterns[0]], true, paths[k0]));
        }
        assert(rest[i - 1] == patterns[i]);
        assert forall|j: int, m: int| 0 <= j < i - 1 && 0 <= m < paths.len() implies !glob_set_matches(
            seq![#[trigger] rest[j]],
            true,
            #[trigger] paths[m],
        ) by {
            assert(rest[j] == patterns[j + 1]);
            assert(!glob_set_matches(seq![patterns[j + 1]], true, paths[m]));
        }
        lemma_first_hit_at(rest, paths, i - 1, k);
    }
}

/// When a sensor is applicable: it is skipped exactly when it lists
/// patterns, every one of them usable, and none of them matches any changed
/// path, wherever that path stands in the list; and when all its patterns
/// are usable, a pattern that matches some changed path, with no earlier
/// pattern matching any, is the one its reason names.
pub proof fn applicability_law(sensor: SensorView, paths: Seq<Seq<char>>, i: int)
    ensures
        !decision(sensor, paths).0 <==> sensor.6.len() > 0 && (forall|j: int|
            0 <= j < sensor.6.len() ==> pattern_usable(#[trigger] sensor.6[j])) && (forall|j: int, k: int|
            0 <= j < sensor.6.len() && 0 <= k < paths.len() ==> !glob_set_matches(
                seq![#[trigger] sensor.6[j]],
                true,
                #[trigger] paths[k],
            )),
        (forall|j: int| 0 <= j < sensor.6.len() ==> pattern_usable(#[trigger] sensor.6[j])) && 0 <= i
            < sensor.6.len() && (exists|k: int| 0 <= k < paths.len() && glob_set_matches(seq![sensor.6[i]], true, #[trigger] paths[k]))
            && (forall|j: int, k: int|
            0 <= j < i && 0 <= k < paths.len() ==> !glob_set_matches(
                seq![#[trigger] sensor.6[j]],
                true,
                #[trigger] paths[k],
            )) ==> decision(sensor, paths) == (true, "matched `"@ + sensor.6[i] + "`"@),
{
    lemma_first_hit_none(sensor.6, paths);
    if (forall|j: int| 0 <= j < sensor.6.len() ==> pattern_usable(#[trigger] sensor.6[j])) && 0 <= i
        < sensor.6.len() && (exists|k: int| 0 <= k < paths.len() && glob_set_matches(seq![sensor.6[i]], true, #[trigger] paths[k]))
        && (forall|j: int, k: int|
        0 <= j < i && 0 <= k < paths.len() ==> !glob_set_matches(
            seq![#[trigger] sensor.6[j]],
            true,
            #[trigger] paths[k],
        )) {
        let k = choose|k: int| 0 <= k < paths.len() && glob_set_matches(seq![sensor.6[i]], true, #[trigger] paths[k]);
        lemma_first_hit_at(sensor.6, paths, i, k);
    }
}

/// Whether `pattern` matches one of `paths`.
fn any_path_matches(pattern: &str, paths: &Vec<&str>) -> (b: bool)
    requires
        pattern_usable(pattern@),
    ensures
        b == matches_any(pattern@, str_views(paths@)),
{
    let ghost pv = str_views(paths@);
    let one = vec![owned(pattern)];
    proof {
        assert(string_views(one@) =~= seq![pattern@]);
        assert(one@[0]@ == string_views(one@)[0]);
    }
    let mut k: usize = 0;
    while k < paths.len()
        invariant
            k <= paths.len(),
            pv == str_views(paths@),
            string_views(one@) == seq![pattern@],
            one@.len() == 1,
            one@[0]@ == pattern@,
            pattern_usable(pattern@),
            forall|j: int| 0 <= j < k ==> !glob_set_matches(seq![pattern@], true, #[trigger] pv[j]),
        decreases paths.len() - k,
    {
        match glob_set_match(one.as_slice(), true, paths[k]) {
            Some(true) => {
                proof {
                    assert(pv[k as int] == paths@[k as int]@);
                }
                return true;
            },
            _ => {},
        }
        proof {
            assert(pv[k as int] == paths@[k as int]@);
        }
        k = k + 1;
    }
    false
}

/// Decides one sensor against the changed paths.
fn decide(sensor: &SensorSpec, paths: &Vec<&str>) -> (d: (bool, String))
    ensures
        (d.0, d.1@) == decision(sensor@, str_views(paths@)),
{
    let ghost pats = string_views(sensor.when_changed@);
    if sensor.when_changed.len() == 0 {
        return (true, owned(UNCONSTRAINED_REASON));
    }
    let mut i: usize = 0;
    while i < sensor.when_changed.len()
        invariant
            i <= sensor.when_changed.len(),
            pats == string_views(sensor.when_changed@),
            forall|j: int| 0 <= j < i ==> pattern_usable(#[trigger] pats[j]),
        decreases sensor.when_changed.len() - i,
    {
        proof {
            assert(pats[i as int] == sensor.when_changed@[i as int]@);
        }
        if !compile_glob(sensor.when_changed[i].as_str(), true) {
            return (true, owned(FAIL_CLOSED_REASON));
        }
        let one = vec![sensor.when_changed[i].clone()];
        proof {
            assert(string_views(one@) =~= seq![pats[i as int]]);
        }
        if !build_glob_set(one.as_slice(), true) {
            return (true, owned(FAIL_CLOSED_REASON));
        }
        i = i + 1;
    }
    let mut j: usize = 0;
    proof {
        assert(pats.skip(0) =~= pats);
    }
    while j < sensor.when_changed.len()
        invariant
            j <= sensor.when_changed.len(),
            pats == string_views(sensor.when_changed@),
            forall|k: int| 0 <= k < pats.len() ==> pattern_usable(#[trigger] pats[k]),
            first_hit(pats, str_views(paths@)) == first_hit(pats.skip(j as int), str_views(paths@)),
        decreases sensor.when_changed.len() - j,
    {
        let p = sensor.when_changed[j].as_str();
        proof {
            assert(pats[j as int] == p@);
            assert(pats.skip(j as int)[0] == pats[j as int]);
            assert(pats.skip(j as int).drop_first() =~= pats.skip(j + 1));
        }
        if any_path_matches(p, paths) {
            let mut reason = owned("matched `");
            append_str(&mut reason, p);
            append_str(&mut reason, "`");
            return (true, reason);
        }
        j = j + 1;
    }
    proof {
        assert(pats.skip(j as int) =~= Seq::<Seq<char>>::empty());
    }
    (false, owned(NO_MATCH_REASON))
}

/// Splits `candidates` into applicable and inapplicable sensors.
///
/// Deleted paths still match patterns (removing a source file must trigger
/// its checks). When `changed.discovery_failed`, every candidate is selected
/// with the fail-closed reason so a required signal can never silently
/// disappear because repository state could not be read.
pub fn select(candidates: &[&SensorSpec], changed: &ChangedFiles) -> (s: Selection)
    ensures
        selected_views(s.selected@) == selected_of(candidate_views(candidates@), file_paths(changed.files@), changed.discovery_failed),
        skipped_views(s.skipped@) == skipped_of(candidate_views(candidates@), file_paths(changed.files@), changed.discovery_failed),
{
    let ghost cv = candidate_views(candidates@);
    let paths = changed.paths();
    let ghost pv = file_paths(changed.files@);
    let failed = changed.discovery_failed;
    let mut selected: Vec<Selected> = Vec::new();
    let mut skipped: Vec<Skipped> = Vec::new();
    let mut i: usize = 0;
    while i < candidates.len()
        invariant
            i <= candidates.len(),
            cv == candidate_views(candidates@),
            str_views(paths@) == pv,
            pv == file_paths(changed.files@),
            failed == changed.discovery_failed,
            selected_views(selected@) == selected_of(cv.take(i as int), pv, failed),
            skipped_views(skipped@) == skipped_of(cv.take(i as int), pv, failed),
        decreases candidates.len() - i,
    {
        proof {
            assert(cv.take(i + 1).drop_last() =~= cv.take(i as int));
            assert(cv.take(i + 1).last() == candidates@[i as int]@);
        }
        let spec = candidates[i];
        let ghost s0 = selected@;
        let ghost k0 = skipped@;
        if failed {
            selected.push(Selected { name: spec.name.clone(), reason: owned(FAIL_CLOSED_REASON) });
            proof {
                assert(selected_views(selected@) =~= selected_views(s0).push((spec.name@, FAIL_CLOSED_REASON@)));
            }
        } else {
            let (keep, reason) = decide(spec, &paths);
            if keep {
                selected.push(Selected { name: spec.name.clone(), reason });
                proof {
                    assert(selected_views(selected@) =~= selected_views(s0).push((spec.name@, decision(spec@, pv).1)));
                }
            } else {
                skipped.push(Skipped { name: spec.name.clone(), reason });
                proof {
                    assert(skipped_views(skipped@) =~= skipped_views(k0).push((spec.name@, decision(spec@, pv).1)));
                }
            }
        }
        i = i + 1;
    }
    proof {
        assert(cv.take(i as int) =~= cv);
    }
    Selection { selected, skipped }
}

} // verus!
