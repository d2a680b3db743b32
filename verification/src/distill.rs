//! The evidence gate of heuristic distillation: a heuristic is distilled
//! only from a resolved trace, into an existing skill, once a sensor has
//! passed. Each fact is looked up only once the previous ones allow it.
use vstd::prelude::*;

use crate::text::{append_str, int_repr, i64_to_string, owned};

verus! {

/// Why a distill run was refused.
#[derive(Debug, Clone, Copy, PartialEq, Eq, Structural)]
pub enum DistillRefusal {
    /// No `--from-trace` was given.
    NoTrace,
    /// The skill has no `SKILL.md`.
    UnknownSkill,
    /// The trace does not exist.
    TraceNotFound,
    /// The trace records no (or empty) resolution steps.
    NoResolutionSteps,
    /// No passing sensor beat has been recorded.
    NoOkBeat,
}

/// The facts looked up so far; `None` marks one not looked up yet.
pub struct DistillFacts {
    /// The `--from-trace` argument.
    pub from_trace: Option<i64>,
    /// Whether `.agents/skills/<skill>/SKILL.md` exists.
    pub skill_exists: Option<bool>,
    /// The trace's resolution steps: `Some(None)` when the trace is missing.
    pub trace: Option<Option<Option<String>>>,
    /// Whether an ok sensor beat is recorded.
    pub ok_beat: Option<bool>,
}

/// What a distill run must learn next, or its verdict.
#[derive(Debug, Clone, Copy, PartialEq, Eq, Structural)]
pub enum DistillStep {
    /// Check whether the skill exists.
    NeedSkill,
    /// Read this trace.
    NeedTrace(i64),
    /// Check for an ok sensor beat.
    NeedBeats,
    /// Refused.
    Refused(DistillRefusal),
    /// All evidence is present: distill from this trace.
    Proceed(i64),
}

/// The view of optional resolution steps: present and non-empty.
pub open spec fn has_steps(s: Option<String>) -> bool {
    match s {
        Some(t) => t@.len() > 0,
        None => false,
    }
}

/// The checks, in order: a trace argument, then the skill, then the trace and
/// its resolution steps, then an ok beat.
pub open spec fn next_step(
    from_trace: Option<i64>,
    skill_exists: Option<bool>,
    trace: Option<Option<Option<String>>>,
    ok_beat: Option<bool>,
) -> DistillStep {
    match from_trace {
        None => DistillStep::Refused(DistillRefusal::NoTrace),
        Some(id) => match skill_exists {
            None => DistillStep::NeedSkill,
            Some(false) => DistillStep::Refused(DistillRefusal::UnknownSkill),
            Some(true) => match trace {
                None => DistillStep::NeedTrace(id),
                Some(None) => DistillStep::Refused(DistillRefusal::TraceNotFound),
                Some(Some(steps)) => if !has_steps(steps) {
                    DistillStep::Refused(DistillRefusal::NoResolutionSteps)
                } else {
                    match ok_beat {
                        None => DistillStep::NeedBeats,
                        Some(false) => DistillStep::Refused(DistillRefusal::NoOkBeat),
                        Some(true) => DistillStep::Proceed(id),
                    }
                },
            },
        },
    }
}

/// The next thing a distill run must learn, or its verdict.
pub fn distill_step(f: &DistillFacts) -> (s: DistillStep)
    ensures
        s == next_step(f.from_trace, f.skill_exists, f.trace, f.ok_beat),
{
    let id = match f.from_trace {
        None => return DistillStep::Refused(DistillRefusal::NoTrace),
        Some(id) => id,
    };
    match f.skill_exists {
        None => return DistillStep::NeedSkill,
        Some(false) => return DistillStep::Refused(DistillRefusal::UnknownSkill),
        Some(true) => {},
    }
    match &f.trace {
        None => return DistillStep::NeedTrace(id),
        Some(None) => return DistillStep::Refused(DistillRefusal::TraceNotFound),
        Some(Some(steps)) => {
            let present = match steps {
                Some(t) => crate::text::to_chars(t.as_str()).len() > 0,
                None => false,
            };
            if !present {
                return DistillStep::Refused(DistillRefusal::NoResolutionSteps);
            }
        },
    }
    match f.ok_beat {
        None => DistillStep::NeedBeats,
        Some(false) => DistillStep::Refused(DistillRefusal::NoOkBeat),
        Some(true) => DistillStep::Proceed(id),
    }
}

/// Every run ends in a verdict once all four facts are known.
pub proof fn gate_decides(from_trace: Option<i64>, skill_exists: bool, trace: Option<Option<String>>, ok_beat: bool)
    ensures
        next_step(from_trace, Some(skill_exists), Some(trace), Some(ok_beat)) matches DistillStep::Refused(_)
            || next_step(from_trace, Some(skill_exists), Some(trace), Some(ok_beat)) matches DistillStep::Proceed(_),
{
}

/// A run proceeds only with every piece of evidence present.
pub proof fn proceed_needs_evidence(
    from_trace: Option<i64>,
    skill_exists: Option<bool>,
    trace: Option<Option<Option<String>>>,
    ok_beat: Option<bool>,
    id: i64,
)
    requires
        next_step(from_trace, skill_exists, trace, ok_beat) == DistillStep::Proceed(id),
    ensures
        from_trace == Some(id),
        skill_exists == Some(true),
        trace matches Some(Some(steps)) && has_steps(steps),
        ok_beat == Some(true),
{
}

impl DistillRefusal {
    /// The refusal as a message naming the skill and trace.
    pub fn message(self, skill: &str, trace_id: i64) -> (m: String)
        ensures
            self == DistillRefusal::NoTrace ==> m@
                == "distill requires evidence: pass --from-trace <id> of a resolved trace (see do-harness trace add)"@,
            self == DistillRefusal::UnknownSkill ==> m@ == "unknown skill '"@ + skill@
                + "': no SKILL.md under .agents/skills"@,
            self == DistillRefusal::TraceNotFound ==> m@ == "trace "@ + int_repr(trace_id as int) + " not found"@,
            self == DistillRefusal::NoResolutionSteps ==> m@ == "trace "@ + int_repr(trace_id as int)
                + " has no resolution steps; record the verified fix with do-harness trace add --resolution-steps before distilling"@,
            self == DistillRefusal::NoOkBeat ==> m@
                == "distill requires evidence: no ok sensor beat recorded (run do-harness verify --record)"@,
    {
        match self {
            DistillRefusal::NoTrace => owned(
                "distill requires evidence: pass --from-trace <id> of a resolved trace (see do-harness trace add)",
            ),
            DistillRefusal::UnknownSkill => {
                let mut m = owned("unknown skill '");
                append_str(&mut m, skill);
                append_str(&mut m, "': no SKILL.md under .agents/skills");
                m
            },
            DistillRefusal::TraceNotFound => {
                let mut m = owned("trace ");
                let n = i64_to_string(trace_id);
                append_str(&mut m, n.as_str());
                append_str(&mut m, " not found");
                m
            },
            DistillRefusal::NoResolutionSteps => {
                let mut m = owned("trace ");
                let n = i64_to_string(trace_id);
                append_str(&mut m, n.as_str());
                append_str(
                    &mut m,
                    " has no resolution steps; record the verified fix with do-harness trace add --resolution-steps before distilling",
                );
                m
            },
            DistillRefusal::NoOkBeat => owned(
                "distill requires evidence: no ok sensor beat recorded (run do-harness verify --record)",
            ),
        }
    }
}

/// The dry-run report line.
pub fn dry_run_line(skill: &str, trace_id: i64, pattern: &str) -> (s: String)
    ensures
        s@ == "Dry run: would distill heuristic for "@ + skill@ + " from trace "@ + int_repr(trace_id as int)
            + ": '"@ + pattern@ + "'"@,
{
    let mut s = owned("Dry run: would distill heuristic for ");
    append_str(&mut s, skill);
    append_str(&mut s, " from trace ");
    let n = i64_to_string(trace_id);
    append_str(&mut s, n.as_str());
    append_str(&mut s, ": '");
    append_str(&mut s, pattern);
    append_str(&mut s, "'");
    s
}

/// The report line after a heuristic was distilled.
pub fn distilled_line(id: i64, skill: &str) -> (s: String)
    ensures
        s@ == "Distilled heuristic "@ + int_repr(id as int) + " for "@ + skill@
            + "; appended to references/heuristics.md"@,
{
    let mut s = owned("Distilled heuristic ");
    let n = i64_to_string(id);
    append_str(&mut s, n.as_str());
    append_str(&mut s, " for ");
    append_str(&mut s, skill);
    append_str(&mut s, "; appended to references/heuristics.md");
    s
}

} // verus!
