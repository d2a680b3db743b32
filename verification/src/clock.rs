//! The system clock, read once per call.
use vstd::prelude::*;

verus! {

/// Whole seconds since the Unix epoch from `SystemTime::now()`, or `None`
/// when the system clock reads before the epoch. Nothing is promised of the
/// value: it is the machine's current time.
#[verifier::external_body]
pub(crate) fn system_secs_since_epoch() -> (r: Option<u64>) {
    std::time::SystemTime::now()
        .duration_since(std::time::UNIX_EPOCH)
        .ok()
        .map(|delta| delta.as_secs())
}

} // verus!
