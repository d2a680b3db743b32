//! CI failure and cancellation explanation with local sensor mapping.
//!
//! Workflow jobs are bucketed with `cancelled` kept apart from `failure`;
//! failed jobs are mapped back to the closest local sensor and the exact
//! command that reproduces them, preferring the `FAIL <name>` markers the
//! harness itself prints in the failed step's log.
pub mod gh;
pub mod map;

use vstd::prelude::*;

use crate::ci_explain::gh::{AnnotationItem, FailedLogSignals, JobItem, RunMetadata, StepItem};
use crate::ci_explain::map::{map_sensor, mapped, opt_text};
use crate::config::{sensor_views, SensorSpec};
use crate::seqs::{first_some, lemma_first_some_at, lemma_first_some_none, lemma_first_some_prefix, lemma_first_some_step};
use crate::text::{append_str, nat_repr, owned, str_eq, string_views, trim, trim_str, u64_to_string};

verus! {

/// Classification of a CI job outcome.
#[derive(Debug, Clone, Copy, PartialEq, Eq, Structural)]
pub enum JobClassification {
    Passed,
    Cancelled,
    Failed,
    Skipped,
    Pending,
}

/// Detailed analysis of a single CI job.
pub struct JobExplanation {
    pub id: u64,
    pub name: String,
    pub conclusion: Option<String>,
    pub html_url: String,
    pub classification: JobClassification,
    pub failed_step: Option<String>,
    pub failure_reason: Option<String>,
    pub local_sensor: Option<String>,
    pub local_repro_command: Option<String>,
    pub rerun_command: Option<String>,
}

/// Aggregate summary of the CI run.
pub struct CiSummary {
    pub total: usize,
    pub passed: usize,
    pub cancelled: usize,
    pub failed: usize,
    pub pending: usize,
    pub skipped: usize,
    pub recommended_action: String,
}

/// Structured CI explanation report.
pub struct CiExplainReport {
    pub run_id: u64,
    pub workflow_name: String,
    pub status: String,
    pub conclusion: Option<String>,
    pub html_url: String,
    pub jobs: Vec<JobExplanation>,
    pub summary: CiSummary,
}

/// The view of an optional string.
pub open spec fn opt_view(s: Option<String>) -> Option<Seq<char>> {
    match s {
        Some(v) => Some(v@),
        None => None,
    }
}

/// Buckets a job outcome, keeping `cancelled` distinct from `failure`: a job
/// not `completed` is pending; `success` passed; `skipped` or `neutral`
/// skipped; `cancelled` cancelled; anything else failed.
pub open spec fn classification_of(status: Seq<char>, conclusion: Option<Seq<char>>) -> JobClassification {
    if status != "completed"@ {
        JobClassification::Pending
    } else {
        match conclusion {
            Some(c) => if c == "success"@ {
                JobClassification::Passed
            } else if c == "skipped"@ || c == "neutral"@ {
                JobClassification::Skipped
            } else if c == "cancelled"@ {
                JobClassification::Cancelled
            } else {
                JobClassification::Failed
            },
            None => JobClassification::Failed,
        }
    }
}

/// How a job is bucketed: a job that has not completed is pending; a
/// completed job passed only on `success` and was cancelled only on
/// `cancelled`; one concluded `skipped` or `neutral` (such as a job its `if:`
/// condition skipped) is skipped; and a job failed exactly when it completed
/// with no conclusion or with one that is none of `success`, `skipped`,
/// `neutral`, `cancelled`.
pub proof fn classification_law(status: Seq<char>, conclusion: Option<Seq<char>>)
    ensures
        classification_of(status, conclusion) == JobClassification::Pending <==> status != "completed"@,
        classification_of(status, conclusion) == JobClassification::Passed <==> status == "completed"@
            && conclusion == Some("success"@),
        classification_of(status, conclusion) == JobClassification::Cancelled <==> status == "completed"@
            && conclusion == Some("cancelled"@),
        classification_of(status, conclusion) == JobClassification::Skipped <==> status == "completed"@
            && (conclusion == Some("skipped"@) || conclusion == Some("neutral"@)),
        classification_of(status, conclusion) == JobClassification::Failed <==> status == "completed"@
            && match conclusion {
            None => true,
            Some(c) => c != "success"@ && c != "skipped"@ && c != "neutral"@ && c != "cancelled"@,
        },
{
    reveal_strlit("success");
    reveal_strlit("skipped");
    reveal_strlit("neutral");
    reveal_strlit("cancelled");
    assert("success"@[1] != "skipped"@[1]);
    assert("success"@[0] != "neutral"@[0]);
    assert("success"@[0] != "cancelled"@[0]);
    assert("skipped"@[0] != "neutral"@[0]);
    assert("skipped"@[0] != "cancelled"@[0]);
    assert("neutral"@[0] != "cancelled"@[0]);
}

/// Buckets a job outcome.
pub fn classify(job: &JobItem) -> (c: JobClassification)
    ensures
        c == classification_of(job.status@, opt_view(job.conclusion)),
{
    if !str_eq(job.status.as_str(), "completed") {
        return JobClassification::Pending;
    }
    match &job.conclusion {
        Some(c) => {
            if str_eq(c.as_str(), "success") {
                JobClassification::Passed
            } else if str_eq(c.as_str(), "skipped") || str_eq(c.as_str(), "neutral") {
                JobClassification::Skipped
            } else if str_eq(c.as_str(), "cancelled") {
                JobClassification::Cancelled
            } else {
                JobClassification::Failed
            }
        },
        None => JobClassification::Failed,
    }
}

/// A step as plain values: name and conclusion.
pub open spec fn step_views(steps: Seq<StepItem>) -> Seq<(Seq<char>, Option<Seq<char>>)> {
    steps.map_values(|s: StepItem| (s.name@, opt_view(s.conclusion)))
}

/// The name of a step that concluded `failure`.
pub open spec fn failed_step_fn() -> spec_fn((Seq<char>, Option<Seq<char>>)) -> Option<Seq<char>> {
    |s: (Seq<char>, Option<Seq<char>>)| if s.1 == Some("failure"@) {
        Some(s.0)
    } else {
        None
    }
}

/// The first step that reported failure.
pub fn failing_step(job: &JobItem) -> (r: Option<String>)
    ensures
        opt_view(r) == first_some(step_views(job.steps@), failed_step_fn()),
{
    let ghost sv = step_views(job.steps@);
    let mut i: usize = 0;
    while i < job.steps.len()
        invariant
            i <= job.steps.len(),
            sv == step_views(job.steps@),
            first_some(sv.take(i as int), failed_step_fn()) is None,
        decreases job.steps.len() - i,
    {
        proof {
            lemma_first_some_step(sv, failed_step_fn(), i as int);
        }
        let failed = match &job.steps[i].conclusion {
            Some(c) => str_eq(c.as_str(), "failure"),
            None => false,
        };
        if failed {
            proof {
                lemma_first_some_prefix(sv, failed_step_fn(), i + 1);
            }
            return Some(job.steps[i].name.clone());
        }
        i = i + 1;
    }
    proof {
        assert(sv.take(i as int) =~= sv);
    }
    None
}

/// An annotation as plain values: level, message, path.
pub type AnnotationView = (Option<Seq<char>>, Option<Seq<char>>, Option<Seq<char>>);

/// The views of a list of annotations.
pub open spec fn annotation_views(a: Seq<AnnotationItem>) -> Seq<AnnotationView> {
    a.map_values(|x: AnnotationItem| (opt_view(x.annotation_level), opt_view(x.message), opt_view(x.path)))
}

/// Index of an annotation at `failure` level.
pub open spec fn failure_level_fn() -> spec_fn((int, AnnotationView)) -> Option<int> {
    |p: (int, AnnotationView)| if p.1.0 == Some("failure"@) {
        Some(p.0)
    } else {
        None
    }
}

/// Annotations paired with their positions.
pub open spec fn indexed(a: Seq<AnnotationView>) -> Seq<(int, AnnotationView)> {
    Seq::new(a.len(), |i: int| (i, a[i]))
}

/// The failure text of a job: the newest error line from the log; else the
/// first `failure`-level annotation (or the first annotation), its message
/// trimmed with ` (<path>)` after it when a path is given; else nothing.
pub open spec fn reason_of(error_lines: Seq<Seq<char>>, anns: Seq<AnnotationView>) -> Option<Seq<char>> {
    if error_lines.len() > 0 {
        Some(error_lines.last())
    } else {
        let pick = match first_some(indexed(anns), failure_level_fn()) {
            Some(i) => Some(i),
            None => if anns.len() > 0 {
                Some(0int)
            } else {
                None
            },
        };
        match pick {
            None => None,
            Some(i) => match anns[i].1 {
                None => None,
                Some(m) => match anns[i].2 {
                    Some(p) => if p.len() > 0 {
                        Some(trim(m) + " ("@ + p + ")"@)
                    } else {
                        Some(trim(m))
                    },
                    None => Some(trim(m)),
                },
            },
        }
    }
}

/// Where a failed job's reason comes from: with log error lines, the
/// newest of them; without, the first annotation at `failure` level when
/// there is one, else the first annotation, the reason being what that one
/// annotation alone gives; with neither, no reason.
pub proof fn failure_reason_law(error_lines: Seq<Seq<char>>, anns: Seq<AnnotationView>, j: int)
    ensures
        error_lines.len() > 0 ==> reason_of(error_lines, anns) == Some(error_lines.last()),
        error_lines.len() == 0 && 0 <= j < anns.len() && anns[j].0 == Some("failure"@) && (forall|k: int|
            0 <= k < j ==> (#[trigger] anns[k]).0 != Some("failure"@)) ==> reason_of(error_lines, anns)
            == reason_of(error_lines, seq![anns[j]]),
        error_lines.len() == 0 && anns.len() > 0 && (forall|k: int|
            0 <= k < anns.len() ==> (#[trigger] anns[k]).0 != Some("failure"@)) ==> reason_of(error_lines, anns)
            == reason_of(error_lines, seq![anns[0]]),
        error_lines.len() == 0 && anns.len() == 0 ==> reason_of(error_lines, anns) is None,
        error_lines.len() == 0 && anns.len() == 1 ==> reason_of(error_lines, anns) == match anns[0].1 {
            None => None,
            Some(m) => Some(
                match anns[0].2 {
                    Some(p) => if p.len() > 0 {
                        trim(m) + " ("@ + p + ")"@
                    } else {
                        trim(m)
                    },
                    None => trim(m),
                },
            ),
        },
{
    let iv = indexed(anns);
    if error_lines.len() == 0 && 0 <= j < anns.len() && anns[j].0 == Some("failure"@) && (forall|k: int|
        0 <= k < j ==> (#[trigger] anns[k]).0 != Some("failure"@)) {
        assert forall|k: int| 0 <= k < j implies (failure_level_fn())(#[trigger] iv[k]) is None by {
            assert(iv[k] == (k, anns[k]));
        }
        assert(iv[j] == (j, anns[j]));
        lemma_first_some_at(iv, failure_level_fn(), j);
        let one = seq![anns[j]];
        let ov = indexed(one);
        assert(ov[0] == (0int, anns[j]));
        lemma_first_some_at(ov, failure_level_fn(), 0);
    }
    if error_lines.len() == 0 && anns.len() > 0 && (forall|k: int|
        0 <= k < anns.len() ==> (#[trigger] anns[k]).0 != Some("failure"@)) {
        assert forall|k: int| 0 <= k < anns.len() implies (failure_level_fn())(#[trigger] iv[k]) is None by {
            assert(iv[k] == (k, anns[k]));
        }
        lemma_first_some_none(iv, failure_level_fn(), anns.len() as int);
        assert(iv.take(anns.len() as int) =~= iv);
        let one = seq![anns[0]];
        let ov = indexed(one);
        assert(ov[0] == (0int, anns[0]));
        assert forall|k: int| 0 <= k < 1 implies (failure_level_fn())(#[trigger] ov[k]) is None by {}
        lemma_first_some_none(ov, failure_level_fn(), 1);
        assert(ov.take(1) =~= ov);
    }
    if anns.len() == 0 {
        assert(iv.len() == 0);
    }
    if anns.len() == 1 {
        assert(iv[0] == (0int, anns[0]));
        if anns[0].0 == Some("failure"@) {
            lemma_first_some_at(iv, failure_level_fn(), 0);
        } else {
            assert forall|k: int| 0 <= k < 1 implies (failure_level_fn())(#[trigger] iv[k]) is None by {}
            lemma_first_some_none(iv, failure_level_fn(), 1);
            assert(iv.take(1) =~= iv);
        }
    }
}

/// Failure text: the newest compiler/test error from the log, else the
/// annotation, else nothing (a bare non-zero exit the log did not explain).
pub fn failure_reason(signals: &FailedLogSignals, annotations: &[AnnotationItem]) -> (r: Option<String>)
    ensures
        opt_view(r) == reason_of(string_views(signals.error_lines@), annotation_views(annotations@)),
{
    if signals.error_lines.len() > 0 {
        return Some(signals.error_lines[signals.error_lines.len() - 1].clone());
    }
    let ghost av = annotation_views(annotations@);
    let ghost iv = indexed(av);
    let mut i: usize = 0;
    let mut pick: Option<usize> = None;
    while i < annotations.len() && pick.is_none()
        invariant
            i <= annotations.len(),
            av == annotation_views(annotations@),
            iv == indexed(av),
            pick is None ==> first_some(iv.take(i as int), failure_level_fn()) is None,
            pick matches Some(k) ==> k < annotations.len() && first_some(iv, failure_level_fn()) == Some(k as int),
        decreases annotations.len() - i, if pick is None { 1int } else { 0int },
    {
        proof {
            lemma_first_some_step(iv, failure_level_fn(), i as int);
        }
        let is_failure = match &annotations[i].annotation_level {
            Some(l) => str_eq(l.as_str(), "failure"),
            None => false,
        };
        if is_failure {
            proof {
                lemma_first_some_prefix(iv, failure_level_fn(), i + 1);
            }
            pick = Some(i);
        } else {
            i = i + 1;
        }
    }
    proof {
        if pick is None {
            assert(iv.take(i as int) =~= iv);
        }
    }
    let chosen = match pick {
        Some(k) => k,
        None => {
            if annotations.len() == 0 {
                return None;
            }
            0
        },
    };
    let a = &annotations[chosen];
    match &a.message {
        None => None,
        Some(m) => {
            let message = trim_str(m.as_str());
            match &a.path {
                Some(p) => {
                    if crate::text::to_chars(p.as_str()).len() > 0 {
                        let mut out = message;
                        append_str(&mut out, " (");
                        append_str(&mut out, p.as_str());
                        append_str(&mut out, ")");
                        Some(out)
                    } else {
                        Some(message)
                    }
                },
                None => Some(message),
            }
        },
    }
}

/// Job tally while walking the run.
pub struct JobCounts {
    pub total: usize,
    pub passed: usize,
    pub cancelled: usize,
    pub failed: usize,
    pub pending: usize,
    pub skipped: usize,
}

impl JobCounts {
    /// No jobs seen.
    pub fn new() -> (c: JobCounts)
        ensures
            c.total == 0 && c.passed == 0 && c.cancelled == 0 && c.failed == 0 && c.pending == 0
                && c.skipped == 0,
    {
        JobCounts { total: 0, passed: 0, cancelled: 0, failed: 0, pending: 0, skipped: 0 }
    }

    /// The buckets add up to the total.
    pub open spec fn consistent(&self) -> bool {
        self.passed + self.cancelled + self.failed + self.pending + self.skipped == self.total
    }

    /// Counts one job in its bucket.
    pub fn observe(&mut self, classification: JobClassification)
        requires
            old(self).consistent(),
            old(self).total < usize::MAX,
        ensures
            final(self).consistent(),
            final(self).total == old(self).total + 1,
            final(self).passed == old(self).passed + (if classification == JobClassification::Passed {
                1int
            } else {
                0
            }),
            final(self).cancelled == old(self).cancelled + (if classification == JobClassification::Cancelled {
                1int
            } else {
                0
            }),
            final(self).failed == old(self).failed + (if classification == JobClassification::Failed {
                1int
            } else {
                0
            }),
            final(self).pending == old(self).pending + (if classification == JobClassification::Pending {
                1int
            } else {
                0
            }),
            final(self).skipped == old(self).skipped + (if classification == JobClassification::Skipped {
                1int
            } else {
                0
            }),
    {
        self.total = self.total + 1;
        match classification {
            JobClassification::Passed => self.passed = self.passed + 1,
            JobClassification::Cancelled => self.cancelled = self.cancelled + 1,
            JobClassification::Failed => self.failed = self.failed + 1,
            JobClassification::Pending => self.pending = self.pending + 1,
            JobClassification::Skipped => self.skipped = self.skipped + 1,
        }
    }
}

/// How many of the classifications fall in `c`.
pub open spec fn count_of(cs: Seq<JobClassification>, c: JobClassification) -> int
    decreases cs.len(),
{
    if cs.len() == 0 {
        0
    } else {
        count_of(cs.drop_last(), c) + if cs.last() == c {
            1int
        } else {
            0int
        }
    }
}

/// The classifications of the explained jobs.
pub open spec fn classifications(jobs: Seq<JobExplanation>) -> Seq<JobClassification> {
    jobs.map_values(|j: JobExplanation| j.classification)
}

/// The single action a run calls for: reproduce the first failed job
/// locally (or inspect its logs when no sensor matched); else rerun a
/// cancelled run; else wait for a pending one; else nothing.
pub open spec fn recommendation(run_id: u64, jobs: Seq<JobExplanation>, failed: int, cancelled: int, pending: int) -> Seq<char> {
    if failed > 0 {
        match first_some(jobs, first_failed_fn()) {
            Some(Some(cmd)) => "reproduce locally with: "@ + cmd,
            _ => "inspect the failed job logs; no local sensor matched"@,
        }
    } else if cancelled > 0 {
        "gh run rerun "@ + nat_repr(run_id as nat)
    } else if pending > 0 {
        "run is still in progress; re-run this command when it settles"@
    } else {
        "no action needed; all jobs passed"@
    }
}

/// What the recommended action answers to: with no failed job, a cancelled
/// one calls for `gh run rerun <run_id>`; with neither, a pending one calls
/// for waiting; "no action needed" is recommended exactly when no job
/// failed, was cancelled or is pending; and any failed job calls for
/// reproducing or inspecting it.
pub proof fn recommendation_law(run_id: u64, jobs: Seq<JobExplanation>, failed: int, cancelled: int, pending: int, j: int)
    requires
        failed >= 0,
        cancelled >= 0,
        pending >= 0,
    ensures
        failed == 0 && cancelled > 0 ==> recommendation(run_id, jobs, failed, cancelled, pending) == "gh run rerun "@
            + nat_repr(run_id as nat),
        failed == 0 && cancelled == 0 && pending > 0 ==> recommendation(run_id, jobs, failed, cancelled, pending)
            == "run is still in progress; re-run this command when it settles"@,
        recommendation(run_id, jobs, failed, cancelled, pending) == "no action needed; all jobs passed"@ <==> failed
            == 0 && cancelled == 0 && pending == 0,
        failed > 0 ==> recommendation(run_id, jobs, failed, cancelled, pending)
            == "inspect the failed job logs; no local sensor matched"@ || exists|cmd: Seq<char>|
            recommendation(run_id, jobs, failed, cancelled, pending) == "reproduce locally with: "@ + cmd,
        failed > 0 && 0 <= j < jobs.len() && jobs[j].classification == JobClassification::Failed && (forall|k: int|
            0 <= k < j ==> (#[trigger] jobs[k]).classification != JobClassification::Failed) ==> recommendation(
            run_id,
            jobs,
            failed,
            cancelled,
            pending,
        ) == match opt_view(jobs[j].local_repro_command) {
            Some(cmd) => "reproduce locally with: "@ + cmd,
            None => "inspect the failed job logs; no local sensor matched"@,
        },
        failed > 0 && (forall|k: int| 0 <= k < jobs.len() ==> (#[trigger] jobs[k]).classification
            != JobClassification::Failed) ==> recommendation(run_id, jobs, failed, cancelled, pending)
            == "inspect the failed job logs; no local sensor matched"@,
{
    reveal_strlit("gh run rerun ");
    reveal_strlit("run is still in progress; re-run this command when it settles");
    reveal_strlit("no action needed; all jobs passed");
    reveal_strlit("inspect the failed job logs; no local sensor matched");
    reveal_strlit("reproduce locally with: ");
    let r = recommendation(run_id, jobs, failed, cancelled, pending);
    let none = "no action needed; all jobs passed"@;
    if 0 <= j < jobs.len() && jobs[j].classification == JobClassification::Failed && (forall|k: int|
        0 <= k < j ==> (#[trigger] jobs[k]).classification != JobClassification::Failed) {
        lemma_first_some_at(jobs, first_failed_fn(), j);
    }
    if forall|k: int| 0 <= k < jobs.len() ==> (#[trigger] jobs[k]).classification != JobClassification::Failed {
        lemma_first_some_none(jobs, first_failed_fn(), jobs.len() as int);
        assert(jobs.take(jobs.len() as int) =~= jobs);
    }
    if failed > 0 {
        match first_some(jobs, first_failed_fn()) {
            Some(Some(cmd)) => {
                assert(r[0] == 'r');
                assert(r != none);
            },
            _ => {
                assert(r[0] == 'i');
            },
        }
    } else if cancelled > 0 {
        assert(r[0] == 'g');
    } else if pending > 0 {
        assert(r[0] == 'r');
    }
}

/// The reproduction command of a failed job (itself optional).
pub open spec fn first_failed_fn() -> spec_fn(JobExplanation) -> Option<Option<Seq<char>>> {
    |j: JobExplanation| if j.classification == JobClassification::Failed {
        Some(opt_view(j.local_repro_command))
    } else {
        None
    }
}

/// The single action this run calls for.
pub fn recommend(run_id: u64, jobs: &[JobExplanation], counts: &JobCounts) -> (s: String)
    ensures
        s@ == recommendation(run_id, jobs@, counts.failed as int, counts.cancelled as int, counts.pending as int),
{
    if counts.failed > 0 {
        let mut i: usize = 0;
        while i < jobs.len()
            invariant
                i <= jobs.len(),
                counts.failed > 0,
                first_some(jobs@.take(i as int), first_failed_fn()) is None,
            decreases jobs.len() - i,
        {
            proof {
                lemma_first_some_step(jobs@, first_failed_fn(), i as int);
            }
            if jobs[i].classification == JobClassification::Failed {
                proof {
                    lemma_first_some_prefix(jobs@, first_failed_fn(), i + 1);
                }
                match &jobs[i].local_repro_command {
                    Some(cmd) => {
                        let mut s = owned("reproduce locally with: ");
                        append_str(&mut s, cmd.as_str());
                        return s;
                    },
                    None => {
                        return owned("inspect the failed job logs; no local sensor matched");
                    },
                }
            }
            i = i + 1;
        }
        proof {
            assert(jobs@.take(i as int) =~= jobs@);
        }
        return owned("inspect the failed job logs; no local sensor matched");
    }
    if counts.cancelled > 0 {
        let mut s = owned("gh run rerun ");
        let n = u64_to_string(run_id);
        append_str(&mut s, n.as_str());
        return s;
    }
    if counts.pending > 0 {
        return owned("run is still in progress; re-run this command when it settles");
    }
    owned("no action needed; all jobs passed")
}

/// What the host program fetched for one job: the job itself and, for a
/// failed job, its annotations and failed-step log signals (empty otherwise).
pub struct JobEvidence {
    pub item: JobItem,
    pub annotations: Vec<AnnotationItem>,
    pub signals: FailedLogSignals,
}

/// The rerun command of a cancelled job.
pub open spec fn rerun_text(run_id: u64, job_id: u64) -> Seq<char> {
    "gh run rerun "@ + nat_repr(run_id as nat) + " --job "@ + nat_repr(job_id as nat)
}

/// The explanation of one job, as plain values.
pub open spec fn explains(j: JobExplanation, run_id: u64, e: JobEvidence, sensors: Seq<crate::config::SensorView>) -> bool {
    let c = classification_of(e.item.status@, opt_view(e.item.conclusion));
    let failed = c == JobClassification::Failed;
    let step = if failed {
        first_some(step_views(e.item.steps@), failed_step_fn())
    } else {
        None
    };
    let reason = if failed {
        reason_of(string_views(e.signals.error_lines@), annotation_views(e.annotations@))
    } else {
        None
    };
    let m = mapped(
        e.item.name@,
        match step {
            Some(s) => s,
            None => Seq::<char>::empty(),
        },
        match reason {
            Some(r) => r,
            None => Seq::<char>::empty(),
        },
        string_views(e.signals.failed_sensors@),
        string_views(e.signals.error_lines@),
        sensors,
    );
    &&& j.id == e.item.id
    &&& j.name@ == e.item.name@
    &&& opt_view(j.conclusion) == opt_view(e.item.conclusion)
    &&& j.html_url@ == e.item.html_url@
    &&& j.classification == c
    &&& opt_view(j.failed_step) == step
    &&& opt_view(j.failure_reason) == reason
    &&& opt_view(j.local_sensor) == (if failed {
        m.0
    } else {
        None
    })
    &&& opt_view(j.local_repro_command) == (if failed {
        m.1
    } else {
        None
    })
    &&& opt_view(j.rerun_command) == (if c == JobClassification::Cancelled {
        Some(rerun_text(run_id, e.item.id))
    } else {
        None
    })
}

/// Explains one job: its bucket, and for a failed job the failed step, the
/// failure text and the local sensor that reproduces it; for a cancelled job
/// the rerun command.
pub fn explain_job(run_id: u64, e: JobEvidence, sensors: &[SensorSpec]) -> (j: JobExplanation)
    ensures
        explains(j, run_id, e, sensor_views(sensors@)),
{
    let ghost e0 = e;
    let classification = classify(&e.item);
    let failed = classification == JobClassification::Failed;
    let failed_step = if failed {
        failing_step(&e.item)
    } else {
        None
    };
    let failure = if failed {
        failure_reason(&e.signals, e.annotations.as_slice())
    } else {
        None
    };
    let (local_sensor, local_repro_command) = if failed {
        let step_text: Option<&str> = match &failed_step {
            Some(s) => Some(s.as_str()),
            None => None,
        };
        let reason_text: Option<&str> = match &failure {
            Some(s) => Some(s.as_str()),
            None => None,
        };
        map_sensor(e.item.name.as_str(), step_text, reason_text, &e.signals, sensors)
    } else {
        (None, None)
    };
    let rerun_command = if classification == JobClassification::Cancelled {
        let mut s = owned("gh run rerun ");
        let r = u64_to_string(run_id);
        append_str(&mut s, r.as_str());
        append_str(&mut s, " --job ");
        let n = u64_to_string(e.item.id);
        append_str(&mut s, n.as_str());
        Some(s)
    } else {
        None
    };
    let JobEvidence { item, annotations, signals } = e;
    JobExplanation {
        id: item.id,
        name: item.name,
        conclusion: item.conclusion,
        html_url: item.html_url,
        classification,
        failed_step,
        failure_reason: failure,
        local_sensor,
        local_repro_command,
        rerun_command,
    }
}

/// Explains a workflow run from its header and what was fetched for each of
/// its jobs: one explanation per job in order, the bucket counts, and the
/// recommended action.
pub fn explain(run_id: u64, meta: RunMetadata, evidence: Vec<JobEvidence>, sensors: &[SensorSpec]) -> (r: CiExplainReport)
    requires
        evidence.len() < usize::MAX,
    ensures
        r.run_id == run_id,
        r.workflow_name@ == meta.name@,
        r.status@ == meta.status@,
        opt_view(r.conclusion) == opt_view(meta.conclusion),
        r.html_url@ == meta.html_url@,
        r.jobs.len() == evidence.len(),
        forall|k: int| 0 <= k < evidence.len() ==> #[trigger] explains(r.jobs@[k], run_id, evidence@[k], sensor_views(sensors@)),
        r.summary.total == evidence.len(),
        r.summary.passed == count_of(classifications(r.jobs@), JobClassification::Passed),
        r.summary.cancelled == count_of(classifications(r.jobs@), JobClassification::Cancelled),
        r.summary.failed == count_of(classifications(r.jobs@), JobClassification::Failed),
        r.summary.pending == count_of(classifications(r.jobs@), JobClassification::Pending),
        r.summary.skipped == count_of(classifications(r.jobs@), JobClassification::Skipped),
        r.summary.recommended_action@ == recommendation(
            run_id,
            r.jobs@,
            r.summary.failed as int,
            r.summary.cancelled as int,
            r.summary.pending as int,
        ),
{
    let ghost ev = evidence@;
    let n = evidence.len();
    let mut rest = evidence;
    let mut jobs: Vec<JobExplanation> = Vec::new();
    let mut counts = JobCounts::new();
    let mut k: usize = 0;
    while k < n
        invariant
            k <= n,
            n == ev.len(),
            n < usize::MAX,
            rest@ == ev.skip(k as int),
            jobs.len() == k,
            forall|i: int| 0 <= i < k ==> #[trigger] explains(jobs@[i], run_id, ev[i], sensor_views(sensors@)),
            counts.consistent(),
            counts.total == k,
            counts.passed == count_of(classifications(jobs@), JobClassification::Passed),
            counts.cancelled == count_of(classifications(jobs@), JobClassification::Cancelled),
            counts.failed == count_of(classifications(jobs@), JobClassification::Failed),
            counts.pending == count_of(classifications(jobs@), JobClassification::Pending),
            counts.skipped == count_of(classifications(jobs@), JobClassification::Skipped),
        decreases n - k,
    {
        let e = rest.remove(0);
        proof {
            assert(e == ev[k as int]);
            assert(rest@ =~= ev.skip(k + 1));
        }
        let ghost before = jobs@;
        let j = explain_job(run_id, e, sensors);
        let c = j.classification;
        counts.observe(c);
        jobs.push(j);
        proof {
            assert(classifications(jobs@).drop_last() =~= classifications(before));
            assert(classifications(jobs@).last() == c);
        }
        k = k + 1;
    }
    let recommended_action = recommend(run_id, jobs.as_slice(), &counts);
    CiExplainReport {
        run_id,
        workflow_name: meta.name,
        status: meta.status,
        conclusion: meta.conclusion,
        html_url: meta.html_url,
        jobs,
        summary: CiSummary {
            total: counts.total,
            passed: counts.passed,
            cancelled: counts.cancelled,
            failed: counts.failed,
            pending: counts.pending,
            skipped: counts.skipped,
            recommended_action,
        },
    }
}

} // verus!
