//! Mapping a failed CI job back to the local sensor that reproduces it.
use vstd::prelude::*;

use super::gh::FailedLogSignals;
use crate::config::{SensorSpec, sensor_views, SensorView};
use crate::text::{
    append_str, before_first, contains, find_in, find_sub, join_strings, join_with, lowercase,
    owned, parse_u64, parse_u64_chars, push_char, slice_find, slice_range, str_contains, str_eq,
    string_views, to_chars, to_lowercase, trim, trim_chars,
};

verus! {

/// Why a run ID could not be parsed.
#[derive(Debug, Clone, Copy, PartialEq, Eq, Structural)]
pub enum RunIdError {
    /// A workflow run URL whose ID segment is not a number.
    InvalidUrl,
    /// Neither a number nor a workflow run URL.
    InvalidId,
}

/// The path marker of a workflow run URL.
pub open spec fn runs_marker() -> Seq<char> {
    "/actions/runs/"@
}

/// The run ID a raw input names: after trimming, the number after
/// `/actions/runs/` up to the next `/`, `?` or `#` in a URL, else the whole
/// input as a number.
pub open spec fn run_id_of(input: Seq<char>) -> Result<u64, RunIdError> {
    let t = trim(input);
    match find_sub(t, runs_marker()) {
        Some(idx) => match parse_u64(before_first(t.skip(idx + 14), seq!['/', '?', '#'])) {
            Some(v) => Ok(v as u64),
            None => Err(RunIdError::InvalidUrl),
        },
        None => match parse_u64(t) {
            Some(v) => Ok(v as u64),
            None => Err(RunIdError::InvalidId),
        },
    }
}

/// Parses a run ID from a raw number string or a `GitHub` Actions URL.
pub fn parse_run_id(input: &str) -> (r: Result<u64, RunIdError>)
    ensures
        r == run_id_of(input@),
{
    let all = to_chars(input);
    let t = trim_chars(&all);
    let marker = to_chars("/actions/runs/");
    proof {
        reveal_strlit("/actions/runs/");
    }
    match slice_find(&t, &marker) {
        Some(idx) => {
            let start = idx + 14;
            let rest = slice_range(&t, start, t.len());
            let stops = vec!['/', '?', '#'];
            proof {
                assert(stops@ =~= seq!['/', '?', '#']);
                assert(rest@ =~= t@.skip(start as int));
                assert(rest@.skip(0) =~= rest@);
                crate::text::lemma_first_in(rest@, stops@);
            }
            let end = match find_in(&rest, 0, &stops) {
                Some(k) => k,
                None => rest.len(),
            };
            let id_part = slice_range(&rest, 0, end);
            proof {
                assert(id_part@ =~= before_first(rest@, seq!['/', '?', '#']));
            }
            match parse_u64_chars(&id_part) {
                Some(v) => Ok(v),
                None => Err(RunIdError::InvalidUrl),
            }
        },
        None => match parse_u64_chars(&t) {
            Some(v) => Ok(v),
            None => Err(RunIdError::InvalidId),
        },
    }
}

/// The tool signatures, most specific first: keywords that select a rule,
/// the sensor it names, and the command used when no such sensor is
/// configured. A rustc `error[e0` precedes `test` because it identifies the
/// build sensor even inside a test job.
pub open spec fn tool_rules() -> Seq<(Seq<Seq<char>>, Seq<char>, Seq<char>)> {
    seq![
        (seq!["error[e0"@, "could not compile"@, "cargo check"@, "cargo build"@], "check"@, "cargo check --workspace"@),
        (seq!["clippy"@], "clippy"@, "cargo clippy --workspace --all-targets -- -D warnings"@),
        (seq!["nextest"@, "cargo test"@, "test result: failed"@, "test failed"@, "panicked at"@, "failed to run test"@], "test"@, "cargo nextest run --workspace --no-tests=pass"@),
        (seq!["doctest"@, "doc test"@], "doctest"@, "cargo test --doc --workspace"@),
        (seq!["fmt"@, "rustfmt"@], "fmt"@, "cargo fmt --all -- --check"@),
        (seq!["check-loc"@, "loc ceiling"@, "500 loc"@], "loc"@, "bash scripts/check-loc.sh"@),
        (seq!["markdownlint"@], "markdownlint"@, "markdownlint-cli2"@),
        (seq!["shellcheck"@], "shell"@, "shellcheck scripts/*.sh"@),
        (seq!["cargo deny"@], "deps"@, "cargo deny check"@),
        (seq!["cargo audit"@], "audit"@, "cargo audit"@),
    ]
}

/// One tool rule: its keywords, sensor, and fallback command.
fn tool_rule(i: usize) -> (r: (Vec<&'static str>, &'static str, &'static str))
    requires
        i < 10,
    ensures
        r.0@.map_values(|k: &str| k@) == tool_rules()[i as int].0,
        r.1@ == tool_rules()[i as int].1,
        r.2@ == tool_rules()[i as int].2,
{
    let r = match i {
        0 => (vec!["error[e0", "could not compile", "cargo check", "cargo build"], "check", "cargo check --workspace"),
        1 => (vec!["clippy"], "clippy", "cargo clippy --workspace --all-targets -- -D warnings"),
        2 => (vec!["nextest", "cargo test", "test result: failed", "test failed", "panicked at", "failed to run test"], "test", "cargo nextest run --workspace --no-tests=pass"),
        3 => (vec!["doctest", "doc test"], "doctest", "cargo test --doc --workspace"),
        4 => (vec!["fmt", "rustfmt"], "fmt", "cargo fmt --all -- --check"),
        5 => (vec!["check-loc", "loc ceiling", "500 loc"], "loc", "bash scripts/check-loc.sh"),
        6 => (vec!["markdownlint"], "markdownlint", "markdownlint-cli2"),
        7 => (vec!["shellcheck"], "shell", "shellcheck scripts/*.sh"),
        8 => (vec!["cargo deny"], "deps", "cargo deny check"),
        _ => (vec!["cargo audit"], "audit", "cargo audit"),
    };
    proof {
        assert(r.0@.map_values(|k: &str| k@) =~= tool_rules()[i as int].0);
    }
    r
}

/// The first sensor named `name`, as an index.
pub open spec fn sensor_named(sensors: Seq<SensorView>, name: Seq<char>) -> Option<int> {
    if exists|i: int| 0 <= i < sensors.len() && sensors[i].0 == name {
        Some(choose|i: int| 0 <= i < sensors.len() && sensors[i].0 == name && forall|j: int| 0 <= j < i ==> sensors[j].0 != name)
    } else {
        None
    }
}

/// The first rule naming `sensor`, as an index.
pub open spec fn rule_for(sensor: Seq<char>) -> Option<int> {
    if exists|i: int| 0 <= i < 10 && tool_rules()[i].1 == sensor {
        Some(choose|i: int| 0 <= i < 10 && tool_rules()[i].1 == sensor && forall|j: int| 0 <= j < i ==> tool_rules()[j].1 != sensor)
    } else {
        None
    }
}

/// The sensor and command a sensor name resolves to: the configured sensor
/// and its argv joined by spaces; else the tool rule's fallback command;
/// else an opt-in re-run of that single sensor.
pub open spec fn resolved(sensor: Seq<char>, sensors: Seq<SensorView>) -> (Option<Seq<char>>, Option<Seq<char>>) {
    match sensor_named(sensors, sensor) {
        Some(i) => (Some(sensors[i].0), Some(join_with(sensors[i].1, seq![' ']))),
        None => match rule_for(sensor) {
            Some(r) => (Some(sensor), Some(tool_rules()[r].2)),
            None => (Some(sensor), Some("do-harness verify --only "@ + sensor)),
        },
    }
}

/// Finds the first sensor named `name`.
fn find_sensor(sensors: &[SensorSpec], name: &str) -> (r: Option<usize>)
    ensures
        r matches Some(i) ==> i < sensors.len(),
        match r {
            Some(i) => sensor_named(sensor_views(sensors@), name@) == Some(i as int),
            None => sensor_named(sensor_views(sensors@), name@) is None,
        },
{
    let ghost sv = sensor_views(sensors@);
    let mut i: usize = 0;
    while i < sensors.len()
        invariant
            i <= sensors.len(),
            sv == sensor_views(sensors@),
            forall|j: int| 0 <= j < i ==> #[trigger] sv[j].0 != name@,
        decreases sensors.len() - i,
    {
        if str_eq(sensors[i].name.as_str(), name) {
            proof {
                assert(sv[i as int].0 == name@);
                let w = choose|w: int| 0 <= w < sv.len() && sv[w].0 == name@ && forall|j: int| 0 <= j < w ==> sv[j].0 != name@;
                if w < i {
                    assert(sv[w].0 != name@);
                } else if w > i {
                    assert(sv[i as int].0 != name@);
                }
            }
            return Some(i);
        }
        i = i + 1;
    }
    None
}

/// Resolves a sensor name against the config, else the tool's canonical
/// command, else an opt-in re-run of that single sensor.
pub fn resolve(sensor: &str, sensors: &[SensorSpec]) -> (r: (Option<String>, Option<String>))
    ensures
        (match r.0 {
            Some(s) => Some(s@),
            None => None,
        }, match r.1 {
            Some(s) => Some(s@),
            None => None,
        }) == resolved(sensor@, sensor_views(sensors@)),
{
    match find_sensor(sensors, sensor) {
        Some(i) => {
            let cmd = join_strings(sensors[i].argv.as_slice(), " ");
            proof {
                reveal_strlit(" ");
                assert(" "@ =~= seq![' ']);
            }
            return (Some(sensors[i].name.clone()), Some(cmd));
        },
        None => {},
    }
    let mut k: usize = 0;
    while k < 10
        invariant
            k <= 10,
            forall|j: int| 0 <= j < k ==> tool_rules()[j].1 != sensor@,
            sensor_named(sensor_views(sensors@), sensor@) is None,
        decreases 10 - k,
    {
        let rule = tool_rule(k);
        if str_eq(rule.1, sensor) {
            proof {
                let w = choose|w: int| 0 <= w < 10 && tool_rules()[w].1 == sensor@ && forall|j: int| 0 <= j < w ==> tool_rules()[j].1 != sensor@;
                if w < k {
                    assert(tool_rules()[w].1 != sensor@);
                } else if w > k {
                    assert(tool_rules()[k as int].1 != sensor@);
                }
            }
            return (Some(owned(sensor)), Some(owned(rule.2)));
        }
        k = k + 1;
    }
    let mut cmd = owned("do-harness verify --only ");
    append_str(&mut cmd, sensor);
    (Some(owned(sensor)), Some(cmd))
}

/// The lowercased text a failed job is matched against: job name, failed
/// step and reason, separated by spaces, then each error line after a space.
pub open spec fn match_context(job: Seq<char>, step: Seq<char>, reason: Seq<char>, lines: Seq<Seq<char>>) -> Seq<char>
    decreases lines.len(),
{
    if lines.len() == 0 {
        lowercase(job) + seq![' '] + lowercase(step) + seq![' '] + lowercase(reason)
    } else {
        match_context(job, step, reason, lines.drop_last()) + seq![' '] + lowercase(lines.last())
    }
}

/// The first configured sensor whose lowercased name occurs in `context`.
pub open spec fn sensor_in_context(sensors: Seq<SensorView>, context: Seq<char>) -> Option<int> {
    if exists|i: int| 0 <= i < sensors.len() && contains(context, lowercase(sensors[i].0)) {
        Some(choose|i: int| 0 <= i < sensors.len() && contains(context, lowercase(sensors[i].0)) && forall|j: int|
            0 <= j < i ==> !contains(context, lowercase(sensors[j].0)))
    } else {
        None
    }
}

/// Whether some keyword of rule `i` occurs in `context`.
pub open spec fn rule_hits(i: int, context: Seq<char>) -> bool {
    exists|k: int| 0 <= k < tool_rules()[i].0.len() && contains(context, tool_rules()[i].0[k])
}

/// The first tool rule with a keyword in `context`.
pub open spec fn rule_in_context(context: Seq<char>) -> Option<int> {
    if exists|i: int| 0 <= i < 10 && rule_hits(i, context) {
        Some(choose|i: int| 0 <= i < 10 && rule_hits(i, context) && forall|j: int| 0 <= j < i ==> !rule_hits(j, context))
    } else {
        None
    }
}

/// The view of an optional string.
pub open spec fn opt_text(s: Option<&str>) -> Seq<char> {
    match s {
        Some(v) => v@,
        None => Seq::<char>::empty(),
    }
}

/// The sensor and command a failed job maps to.
pub open spec fn mapped(
    job: Seq<char>,
    step: Seq<char>,
    reason: Seq<char>,
    failed_sensors: Seq<Seq<char>>,
    error_lines: Seq<Seq<char>>,
    sensors: Seq<SensorView>,
) -> (Option<Seq<char>>, Option<Seq<char>>) {
    if failed_sensors.len() > 0 {
        resolved(failed_sensors[0], sensors)
    } else {
        let context = match_context(job, step, reason, error_lines);
        match sensor_in_context(sensors, context) {
            Some(i) => (Some(sensors[i].0), Some(join_with(sensors[i].1, seq![' ']))),
            None => match rule_in_context(context) {
                Some(r) => resolved(tool_rules()[r].1, sensors),
                None => (None, None),
            },
        }
    }
}

/// Builds the lowercased match context.
fn context_text(job_name: &str, failed_step: Option<&str>, reason: Option<&str>, lines: &Vec<String>) -> (c: Vec<char>)
    ensures
        c@ == match_context(job_name@, opt_text(failed_step), opt_text(reason), string_views(lines@)),
{
    let mut c = owned("");
    proof {
        reveal_strlit("");
    }
    let a = to_lowercase(job_name);
    append_str(&mut c, a.as_str());
    push_char(&mut c, ' ');
    let b = match failed_step {
        Some(s) => to_lowercase(s),
        None => to_lowercase(""),
    };
    append_str(&mut c, b.as_str());
    push_char(&mut c, ' ');
    let d = match reason {
        Some(s) => to_lowercase(s),
        None => to_lowercase(""),
    };
    append_str(&mut c, d.as_str());
    proof {
        assert(""@ =~= Seq::<char>::empty());
        assert(c@ =~= match_context(job_name@, opt_text(failed_step), opt_text(reason), Seq::<Seq<char>>::empty()));
    }
    let ghost lv = string_views(lines@);
    let mut i: usize = 0;
    while i < lines.len()
        invariant
            i <= lines.len(),
            lv == string_views(lines@),
            c@ == match_context(job_name@, opt_text(failed_step), opt_text(reason), lv.take(i as int)),
        decreases lines.len() - i,
    {
        proof {
            assert(lv.take(i + 1).drop_last() =~= lv.take(i as int));
            assert(lv.take(0) =~= Seq::<Seq<char>>::empty());
        }
        push_char(&mut c, ' ');
        let l = to_lowercase(lines[i].as_str());
        append_str(&mut c, l.as_str());
        i = i + 1;
    }
    proof {
        assert(lv.take(i as int) =~= lv);
    }
    to_chars(c.as_str())
}

/// Matches a failed job to a local sensor and the command that reproduces it.
///
/// Precedence: a `FAIL <name>` marker the harness printed (authoritative);
/// then a configured sensor whose name appears in the job, step, reason or
/// error text; then a tool signature mapped to the sensor that runs it.
pub fn map_sensor(
    job_name: &str,
    failed_step: Option<&str>,
    reason: Option<&str>,
    signals: &FailedLogSignals,
    sensors: &[SensorSpec],
) -> (r: (Option<String>, Option<String>))
    ensures
        (match r.0 {
            Some(s) => Some(s@),
            None => None,
        }, match r.1 {
            Some(s) => Some(s@),
            None => None,
        }) == mapped(
            job_name@,
            opt_text(failed_step),
            opt_text(reason),
            string_views(signals.failed_sensors@),
            string_views(signals.error_lines@),
            sensor_views(sensors@),
        ),
{
    if signals.failed_sensors.len() > 0 {
        return resolve(signals.failed_sensors[0].as_str(), sensors);
    }
    let context = context_text(job_name, failed_step, reason, &signals.error_lines);
    let ghost sv = sensor_views(sensors@);
    let ghost ctx = match_context(job_name@, opt_text(failed_step), opt_text(reason), string_views(signals.error_lines@));
    let mut i: usize = 0;
    while i < sensors.len()
        invariant
            i <= sensors.len(),
            sv == sensor_views(sensors@),
            signals.failed_sensors.len() == 0,
            context@ == ctx,
            ctx == match_context(job_name@, opt_text(failed_step), opt_text(reason), string_views(signals.error_lines@)),
            forall|j: int| 0 <= j < i ==> !contains(context@, lowercase(#[trigger] sv[j].0)),
        decreases sensors.len() - i,
    {
        let lname = to_lowercase(sensors[i].name.as_str());
        let ln = to_chars(lname.as_str());
        if crate::text::slice_contains(&context, &ln) {
            proof {
                assert(sv[i as int].0 == sensors@[i as int].name@);
                let w = choose|w: int| 0 <= w < sv.len() && contains(context@, lowercase(sv[w].0)) && forall|j: int|
                    0 <= j < w ==> !contains(context@, lowercase(sv[j].0));
                if w < i {
                    assert(!contains(context@, lowercase(sv[w].0)));
                } else if w > i {
                    assert(!contains(context@, lowercase(sv[i as int].0)));
                }
            }
            let cmd = join_strings(sensors[i].argv.as_slice(), " ");
            proof {
                reveal_strlit(" ");
                assert(" "@ =~= seq![' ']);
            }
            return (Some(sensors[i].name.clone()), Some(cmd));
        }
        proof {
            assert(sv[i as int].0 == sensors@[i as int].name@);
        }
        i = i + 1;
    }
    proof {
        if exists|j: int| 0 <= j < sv.len() && contains(context@, lowercase(sv[j].0)) {
            let j = choose|j: int| 0 <= j < sv.len() && contains(context@, lowercase(sv[j].0));
            assert(!contains(context@, lowercase(sv[j].0)));
        }
        assert(sensor_in_context(sv, ctx) is None);
    }
    let mut k: usize = 0;
    while k < 10
        invariant
            k <= 10,
            forall|j: int| 0 <= j < k ==> !#[trigger] rule_hits(j, context@),
            signals.failed_sensors.len() == 0,
            context@ == ctx,
            ctx == match_context(job_name@, opt_text(failed_step), opt_text(reason), string_views(signals.error_lines@)),
            sensor_in_context(sv, ctx) is None,
            sv == sensor_views(sensors@),
        decreases 10 - k,
    {
        let rule = tool_rule(k);
        let mut hit = false;
        let mut m: usize = 0;
        while m < rule.0.len() && !hit
            invariant
                m <= rule.0.len(),
                rule.0@.map_values(|kw: &str| kw@) == tool_rules()[k as int].0,
                !hit ==> forall|q: int| 0 <= q < m ==> !contains(context@, #[trigger] tool_rules()[k as int].0[q]),
                hit ==> m < rule.0.len() && contains(context@, tool_rules()[k as int].0[m as int]),
            decreases rule.0.len() - m, if hit { 0int } else { 1int },
        {
            let kw = to_chars(rule.0[m]);
            proof {
                assert(rule.0@.map_values(|kw: &str| kw@)[m as int] == rule.0@[m as int]@);
            }
            if crate::text::slice_contains(&context, &kw) {
                hit = true;
            } else {
                m = m + 1;
            }
        }
        if hit {
            proof {
                assert(rule_hits(k as int, context@));
                let w = choose|w: int| 0 <= w < 10 && rule_hits(w, context@) && forall|j: int| 0 <= j < w ==> !rule_hits(j, context@);
                if w < k {
                    assert(!rule_hits(w, context@));
                } else if w > k {
                    assert(!rule_hits(k as int, context@));
                }
            }
            return resolve(rule.1, sensors);
        }
        proof {
            assert(!rule_hits(k as int, context@));
        }
        k = k + 1;
    }
    (None, None)
}

} // verus!
