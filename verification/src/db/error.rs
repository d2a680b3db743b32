//! Classifying `SQLite` failures, and when a busy failure is retried.
use vstd::prelude::*;

verus! {

/// `SQLite` primary result code for constraint violations.
pub const SQLITE_CONSTRAINT: i32 = 19;

/// `SQLite` primary result code for a transient lock (`database is locked`).
pub const SQLITE_BUSY: i32 = 5;

/// The primary result code of an extended `SQLite` code (its low byte).
pub open spec fn primary_code(code: i32) -> u32 {
    (code as u32) % 256
}

/// Whether a `SQLite` failure code is a constraint violation (extended
/// codes fold into their primary code).
pub fn is_constraint_code(code: i32) -> (b: bool)
    ensures
        b == (primary_code(code) == 19),
{
    let u: u32 = #[verifier::truncate] (code as u32);
    let low: u32 = u & 0xFF;
    assert(u & 0xFF == u % 256) by (bit_vector);
    low == 19
}

/// Whether a `SQLite` failure code is transient lock contention.
pub fn is_busy_code(code: i32) -> (b: bool)
    ensures
        b == (primary_code(code) == 5),
{
    let u: u32 = #[verifier::truncate] (code as u32);
    let low: u32 = u & 0xFF;
    assert(u & 0xFF == u % 256) by (bit_vector);
    low == 5
}

/// What to do after attempt `attempt` (0-based) of `attempts` failed.
#[derive(Debug, Clone, Copy, PartialEq, Eq, Structural)]
pub enum RetryStep {
    /// Sleep this many milliseconds, then replay the unit of work.
    RetryAfterMillis(u64),
    /// Return the error.
    Fail,
}

/// Only a busy failure with attempts left is retried, after a progressive
/// backoff of ten milliseconds per attempt made.
pub fn after_failure(attempt: usize, attempts: usize, busy: bool) -> (s: RetryStep)
    requires
        attempt < attempts,
        (attempt + 1) * 10 <= u64::MAX,
    ensures
        s == (if busy && attempt + 1 < attempts {
            RetryStep::RetryAfterMillis(((attempt + 1) * 10) as u64)
        } else {
            RetryStep::Fail
        }),
{
    if busy && attempt + 1 < attempts {
        RetryStep::RetryAfterMillis((attempt as u64 + 1) * 10)
    } else {
        RetryStep::Fail
    }
}

} // verus!
