//! Hash-chain integrity of the workflow event log.
//!
//! Each event's chain hash covers the previous event's hash and the event's
//! canonical payload. The audit walks the log in sequence order with the
//! hash each row should carry (recomputed from the payloads, genesis first)
//! and reports the first row whose sequence number or stored hash diverges.
use vstd::prelude::*;

verus! {

/// Report on workflow event log hash chain integrity.
#[derive(Debug, Clone, Copy, PartialEq, Eq, Structural)]
pub enum ChainReport {
    /// Hash chain is intact across all recorded events.
    Intact {
        /// Total number of verified events.
        count: i64,
    },
    /// First divergence / tampering detected at a specific sequence number.
    Tampered {
        /// Sequence number of the first tampered row.
        seq: i64,
    },
}

impl ChainReport {
    /// Creates an intact report with event count.
    pub fn intact(count: i64) -> (r: ChainReport)
        ensures
            r == (ChainReport::Intact { count }),
    {
        ChainReport::Intact { count }
    }

    /// Creates a tampered report at sequence number `seq`.
    pub fn tampered(seq: i64) -> (r: ChainReport)
        ensures
            r == (ChainReport::Tampered { seq }),
    {
        ChainReport::Tampered { seq }
    }

    /// Returns `true` if the chain is intact.
    pub fn is_intact(&self) -> (b: bool)
        ensures
            b == (*self is Intact),
    {
        match self {
            ChainReport::Intact { .. } => true,
            ChainReport::Tampered { .. } => false,
        }
    }
}

/// One logged event as the audit sees it: its sequence number, the chain
/// hash stored with it, and the hash it should carry.
pub struct ChainLink {
    /// Stored sequence number.
    pub seq: i64,
    /// Stored chain hash, if any.
    pub stored_hash: Option<String>,
    /// Hash recomputed from the previous recomputed hash and this event's
    /// canonical payload.
    pub expected_hash: String,
}

/// Whether row `k` (0-based) of the log is where it should be and carries
/// the hash it should.
pub open spec fn link_ok(l: ChainLink, k: int) -> bool {
    l.seq == k + 1 && match l.stored_hash {
        Some(h) => h@ == l.expected_hash@,
        None => false,
    }
}

/// The position of the first broken link, if any.
pub open spec fn first_break(links: Seq<ChainLink>) -> Option<int> {
    if exists|k: int| 0 <= k < links.len() && !link_ok(links[k], k) {
        Some(choose|k: int| 0 <= k < links.len() && !link_ok(links[k], k) && forall|j: int| 0 <= j < k ==> link_ok(links[j], j))
    } else {
        None
    }
}

/// Finds the first broken link of the log.
pub fn find_break(links: &[ChainLink]) -> (r: Option<usize>)
    ensures
        match r {
            Some(k) => k < links.len() && first_break(links@) == Some(k as int),
            None => first_break(links@) is None,
        },
{
    let mut k: usize = 0;
    while k < links.len()
        invariant
            k <= links.len(),
            forall|j: int| 0 <= j < k ==> link_ok(#[trigger] links@[j], j),
        decreases links.len() - k,
    {
        let l = &links[k];
        let pos: u64 = k as u64 + 1;
        let ok = pos <= 0x7fff_ffff_ffff_ffff && l.seq == pos as i64 && match &l.stored_hash {
            Some(h) => crate::text::str_eq(h.as_str(), l.expected_hash.as_str()),
            None => false,
        };
        if !ok {
            proof {
                assert(!link_ok(links@[k as int], k as int));
                let w = choose|w: int| 0 <= w < links.len() && !link_ok(links@[w], w) && forall|j: int| 0 <= j < w ==> link_ok(links@[j], j);
                if w < k {
                    assert(link_ok(links@[w], w));
                } else if w > k {
                    assert(link_ok(links@[k as int], k as int));
                }
            }
            return Some(k);
        }
        k = k + 1;
    }
    None
}

/// The audit verdict over a log: tampered at the first broken row's stored
/// sequence number, else intact with the number of events.
pub open spec fn chain_verdict(links: Seq<ChainLink>) -> ChainReport {
    match first_break(links) {
        Some(k) => ChainReport::Tampered { seq: links[k].seq },
        None => ChainReport::Intact { count: links.len() as i64 },
    }
}

/// Audits the event log start to end and reports the first tampered row.
pub fn audit_chain(links: &[ChainLink]) -> (r: ChainReport)
    requires
        links.len() <= i64::MAX,
    ensures
        r == chain_verdict(links@),
{
    match find_break(links) {
        Some(k) => ChainReport::tampered(links[k].seq),
        None => ChainReport::intact(links.len() as i64),
    }
}

/// An intact verdict means every row sits at its position and carries the
/// hash recomputed for it.
pub proof fn intact_means_every_link_holds(links: Seq<ChainLink>)
    requires
        chain_verdict(links) is Intact,
    ensures
        forall|k: int| 0 <= k < links.len() ==> link_ok(#[trigger] links[k], k),
{
}

} // verus!
