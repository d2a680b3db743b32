//! The records written to and read from the agent-state store.
use vstd::prelude::*;

use crate::dora::DoraSnapshot;
use crate::text::{append_str, owned};

verus! {

/// Parameters for inserting a task.
pub struct NewTask<'a> {
    pub title: &'a str,
    pub method: Option<&'a str>,
    pub subtask_index: i64,
    pub precondition: Option<&'a str>,
    pub parent_id: Option<i64>,
}

/// Parameters for inserting one DORA snapshot row.
pub struct NewDoraSnapshot<'a> {
    pub source: &'a str,
    pub window_days: i64,
    pub window_start: i64,
    pub window_end: i64,
    pub source_rev: &'a str,
    pub deploy_count: i64,
    pub deploys_failed: i64,
    pub lead_samples: i64,
    pub lead_p50_seconds: Option<i64>,
    pub lead_p90_seconds: Option<i64>,
    pub mttr_seconds: Option<i64>,
    pub mttr_restored: i64,
    pub mttr_unrestored: i64,
    pub breach_count: i64,
    pub policy_fingerprint: &'a str,
    pub derivation: &'a str,
}

/// One persisted DORA snapshot row.
pub struct DoraSnapshotRow {
    pub id: i64,
    pub recorded_at: i64,
    pub source: String,
    pub window_days: i64,
    pub window_start: i64,
    pub window_end: i64,
    pub source_rev: String,
    pub deploy_count: i64,
    pub deploys_failed: i64,
    pub lead_samples: i64,
    pub lead_p50_seconds: Option<i64>,
    pub lead_p90_seconds: Option<i64>,
    pub mttr_seconds: Option<i64>,
    pub mttr_restored: i64,
    pub mttr_unrestored: i64,
    pub breach_count: i64,
    pub policy_fingerprint: String,
    pub derivation: String,
}

/// Per-dimension pass counts of one eval run.
pub struct NewSkillEvalDimRate<'a> {
    pub dim: &'a str,
    pub graded: i64,
    pub passed: i64,
    pub without_passed: Option<i64>,
}

/// Parameters for inserting a beat.
pub struct NewBeat<'a> {
    pub task_id: Option<i64>,
    pub beat_type: &'a str,
    pub status: &'a str,
    pub sensor_exit_code: Option<i32>,
    pub sensor_name: Option<&'a str>,
    pub started_at: i64,
    pub completed_at: Option<i64>,
}

/// One sensor outcome: its beat, whether it passed, and its diagnostic.
pub struct SensorOutcome<'a> {
    pub beat: NewBeat<'a>,
    pub ok: bool,
    pub message: Option<&'a str>,
}

/// Parameters for inserting a heuristic.
pub struct NewHeuristic<'a> {
    pub skill_name: &'a str,
    pub pattern: &'a str,
    pub description: Option<&'a str>,
    pub source_trace_id: Option<i64>,
}

/// Parameters for inserting a trace.
pub struct NewTrace<'a> {
    pub task_id: Option<i64>,
    pub session_id: &'a str,
    pub command: Option<&'a str>,
    pub error_diff: Option<&'a str>,
    pub resolution_steps: Option<&'a str>,
}

/// Run and failure counts of one sensor.
pub struct SensorStat {
    pub name: String,
    pub runs: i64,
    pub failures: i64,
}

/// The blessed findings ceiling of one sensor.
pub struct SensorFindings {
    pub sensor_name: String,
    pub max_findings: i64,
    pub updated_at: i64,
}

/// One recorded bless of a sensor's findings ceiling.
pub struct SensorBless {
    pub sensor_name: String,
    pub max_findings: i64,
    pub previous_max: Option<i64>,
    pub approver: String,
    pub blessed_at: i64,
}

/// One stored workflow event.
pub struct WorkflowEventRow {
    pub id: i64,
    pub task_id: i64,
    pub kind: String,
    pub payload: String,
    pub canonical_payload: String,
    pub created_at: i64,
    pub seq: i64,
    pub chain_hash: String,
}

/// The error-signature key of a sensor beat: `sensor:` and the sensor name,
/// `sensor:unknown` when the beat names none.
pub fn sensor_signature(sensor_name: Option<&str>) -> (s: String)
    ensures
        s@ == "sensor:"@ + match sensor_name {
            Some(n) => n@,
            None => "unknown"@,
        },
{
    let mut s = owned("sensor:");
    match sensor_name {
        Some(n) => append_str(&mut s, n),
        None => append_str(&mut s, "unknown"),
    }
    s
}

/// The error-signature key a `--sensor` filter names: kept when it already
/// carries the `sensor:` namespace, otherwise namespaced.
pub fn sensor_key(sensor: &str) -> (k: String)
    ensures
        k@ == (if crate::text::starts_with(sensor@, "sensor:"@) {
            sensor@
        } else {
            "sensor:"@ + sensor@
        }),
{
    if crate::text::str_starts_with(sensor, "sensor:") {
        owned(sensor)
    } else {
        crate::text::concat("sensor:", sensor)
    }
}

/// The breach count of a snapshot did not fit in `i64`.
#[derive(Debug, Clone, Copy, PartialEq, Eq, Structural)]
pub struct BreachCountOverflow;

/// The row persisting `snapshot`, with its derivation manifest serialized
/// as `derivation`.
pub fn dora_snapshot_row<'a>(snapshot: &'a DoraSnapshot, derivation: &'a str) -> (r: Result<NewDoraSnapshot<'a>, BreachCountOverflow>)
    ensures
        snapshot.breaches.len() > i64::MAX <==> r is Err,
        r matches Ok(row) ==> {
            &&& row.source@ == snapshot.source@
            &&& row.window_days == snapshot.window_days
            &&& row.window_start == snapshot.window_start
            &&& row.window_end == snapshot.window_end
            &&& row.source_rev@ == snapshot.source_rev@
            &&& row.deploy_count == snapshot.deploy_count
            &&& row.deploys_failed == snapshot.deploys_failed
            &&& row.lead_samples == snapshot.lead_samples
            &&& row.lead_p50_seconds == snapshot.lead_p50_seconds
            &&& row.lead_p90_seconds == snapshot.lead_p90_seconds
            &&& row.mttr_seconds == snapshot.mttr_seconds
            &&& row.mttr_restored == snapshot.mttr_restored
            &&& row.mttr_unrestored == snapshot.mttr_unrestored
            &&& row.breach_count == snapshot.breaches.len()
            &&& row.policy_fingerprint@ == snapshot.policy_fingerprint@
            &&& row.derivation@ == derivation@
        },
{
    let n = snapshot.breaches.len();
    if n as u64 > 0x7fff_ffff_ffff_ffff {
        return Err(BreachCountOverflow);
    }
    Ok(NewDoraSnapshot {
        source: snapshot.source.as_str(),
        window_days: snapshot.window_days,
        window_start: snapshot.window_start,
        window_end: snapshot.window_end,
        source_rev: snapshot.source_rev.as_str(),
        deploy_count: snapshot.deploy_count,
        deploys_failed: snapshot.deploys_failed,
        lead_samples: snapshot.lead_samples,
        lead_p50_seconds: snapshot.lead_p50_seconds,
        lead_p90_seconds: snapshot.lead_p90_seconds,
        mttr_seconds: snapshot.mttr_seconds,
        mttr_restored: snapshot.mttr_restored,
        mttr_unrestored: snapshot.mttr_unrestored,
        breach_count: n as i64,
        policy_fingerprint: snapshot.policy_fingerprint.as_str(),
        derivation,
    })
}

} // verus!
