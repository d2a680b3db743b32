//! The workflow event log chain audit, reported as flags and counts.
use vstd::prelude::*;

use crate::audit::{chain_verdict, find_break, first_break, ChainLink};

verus! {

/// Report of workflow event log hash chain integrity.
#[derive(Debug, Clone, Copy, PartialEq, Eq, Structural)]
pub struct ChainReport {
    /// Whether the event log chain is intact.
    pub intact: bool,
    /// Number of events verified.
    pub count: i64,
    /// Offending sequence number if tampering or divergence was detected.
    pub tampered_seq: Option<i64>,
}

impl ChainReport {
    /// Creates a report indicating an intact chain of `count` events.
    pub fn intact(count: i64) -> (r: ChainReport)
        ensures
            r == (ChainReport { intact: true, count, tampered_seq: None }),
    {
        ChainReport { intact: true, count, tampered_seq: None }
    }

    /// Creates a report indicating tampering was detected at `seq`.
    pub fn tampered(seq: i64) -> (r: ChainReport)
        ensures
            r == (ChainReport { intact: false, count: 0, tampered_seq: Some(seq) }),
    {
        ChainReport { intact: false, count: 0, tampered_seq: Some(seq) }
    }
}

/// Recomputes the chain start to end; reports the first tampered row.
pub fn audit_chain(links: &[ChainLink]) -> (r: ChainReport)
    requires
        links.len() <= i64::MAX,
    ensures
        r == (match first_break(links@) {
            Some(k) => ChainReport { intact: false, count: 0, tampered_seq: Some(links@[k].seq) },
            None => ChainReport { intact: true, count: links.len() as i64, tampered_seq: None },
        }),
{
    match find_break(links) {
        Some(k) => ChainReport::tampered(links[k].seq),
        None => ChainReport::intact(links.len() as i64),
    }
}

} // verus!
