//! Blessed findings ratchet baselines: per-sensor findings ceilings that a
//! bless lowers or initializes, and never raises.
use vstd::prelude::*;

use crate::assoc::{
    assoc_insert, assoc_lookup, keys_ascending, lemma_assoc_insert_at, lemma_assoc_insert_lookup,
    lemma_assoc_insert_sorted, lemma_assoc_lookup_first, lemma_assoc_lookup_none,
};
use crate::order::chars_lt;
use crate::text::{str_eq, to_chars};

verus! {

/// Repository-relative path of the committed baseline file.
pub const BASELINES_PATH: &'static str = "plans/baselines.json";

/// Marker hashed when no baseline file exists.
pub const ABSENT_MARKER: &'static str = "absent";

/// Blessed per-sensor findings ceilings, in ascending sensor-name order.
pub struct Baselines {
    sensors: Vec<(String, u64)>,
}

/// Outcome of blessing one sensor's observed findings count.
#[derive(Debug, Clone, Copy, PartialEq, Eq, Structural)]
pub enum BlessOutcome {
    /// No baseline existed; the observed count became the baseline.
    Initialized(u64),
    /// The baseline was lowered to the observed count.
    Lowered {
        /// Previous baseline.
        from: u64,
        /// New baseline.
        to: u64,
    },
    /// The observed count equals the baseline; nothing changed.
    Unchanged(u64),
    /// The observed count exceeds the baseline; a raise is refused.
    Refused {
        /// Current baseline.
        baseline: u64,
        /// Observed count that would have raised it.
        observed: u64,
    },
}

impl View for Baselines {
    type V = Seq<(Seq<char>, u64)>;

    closed spec fn view(&self) -> Seq<(Seq<char>, u64)> {
        self.sensors@.map_values(|e: (String, u64)| (e.0@, e.1))
    }
}

/// The outcome of blessing `observed` for `name` against `baselines`.
pub open spec fn bless_outcome(baselines: Seq<(Seq<char>, u64)>, name: Seq<char>, observed: u64) -> BlessOutcome {
    match assoc_lookup(baselines, name) {
        None => BlessOutcome::Initialized(observed),
        Some(b) => if observed < b {
            BlessOutcome::Lowered { from: b, to: observed }
        } else if observed == b {
            BlessOutcome::Unchanged(b)
        } else {
            BlessOutcome::Refused { baseline: b, observed }
        },
    }
}

/// The baselines after blessing `observed` for `name`: set when missing or
/// lower, otherwise unchanged.
pub open spec fn blessed(baselines: Seq<(Seq<char>, u64)>, name: Seq<char>, observed: u64) -> Seq<(Seq<char>, u64)> {
    match assoc_lookup(baselines, name) {
        None => assoc_insert(baselines, name, observed),
        Some(b) => if observed < b {
            assoc_insert(baselines, name, observed)
        } else {
            baselines
        },
    }
}

impl Baselines {
    /// Well-formed: sensor names strictly ascending, so each occurs once.
    pub open spec fn wf(&self) -> bool {
        keys_ascending(self@)
    }

    /// No baselines: no ratchet.
    pub fn new() -> (b: Baselines)
        ensures
            b@ == Seq::<(Seq<char>, u64)>::empty(),
            b.wf(),
    {
        let b = Baselines { sensors: Vec::new() };
        proof {
            assert(b@ =~= Seq::<(Seq<char>, u64)>::empty());
        }
        b
    }

    /// Number of sensors with a baseline.
    pub fn len(&self) -> (n: usize)
        ensures
            n == self@.len(),
    {
        self.sensors.len()
    }

    /// The sensor name and baseline of the `i`-th entry, in name order.
    pub fn entry(&self, i: usize) -> (e: (&String, u64))
        requires
            i < self@.len(),
        ensures
            e.0@ == self@[i as int].0,
            e.1 == self@[i as int].1,
    {
        let e = &self.sensors[i];
        (&e.0, e.1)
    }

    /// Returns the blessed baseline for `name`, when one exists.
    pub fn get(&self, name: &str) -> (r: Option<u64>)
        ensures
            r == assoc_lookup(self@, name@),
    {
        let mut i: usize = 0;
        while i < self.sensors.len()
            invariant
                i <= self.sensors.len(),
                forall|j: int| 0 <= j < i ==> #[trigger] self@[j].0 != name@,
            decreases self.sensors.len() - i,
        {
            if str_eq(self.sensors[i].0.as_str(), name) {
                proof {
                    lemma_assoc_lookup_first(self@, name@, i as int);
                }
                return Some(self.sensors[i].1);
            }
            i = i + 1;
        }
        proof {
            lemma_assoc_lookup_none(self@, name@);
        }
        None
    }

    /// Sets the baseline for `name`.
    pub fn set(&mut self, name: String, value: u64)
        requires
            old(self).wf(),
        ensures
            final(self).wf(),
            final(self)@ == assoc_insert(old(self)@, name@, value),
    {
        let ghost s = self@;
        let k = to_chars(name.as_str());
        let mut p: usize = 0;
        let mut searching = true;
        while searching && p < self.sensors.len()
            invariant
                p <= self.sensors.len(),
                self@ == s,
                self.sensors@.len() == s.len(),
                forall|i: int| 0 <= i < s.len() ==> #[trigger] s[i] == (self.sensors@[i].0@, self.sensors@[i].1),
                forall|i: int| 0 <= i < p ==> crate::order::text_lt(#[trigger] s[i].0, k@),
                !searching ==> p < s.len() && !crate::order::text_lt(s[p as int].0, k@),
            decreases self.sensors.len() - p, if searching {
                1int
            } else {
                0int
            },
        {
            let n = to_chars(self.sensors[p].0.as_str());
            proof {
                assert(s[p as int] == (self.sensors@[p as int].0@, self.sensors@[p as int].1));
            }
            if !chars_lt(&n, &k) {
                searching = false;
            } else {
                p = p + 1;
            }
        }
        proof {
            lemma_assoc_insert_at(s, name@, value, p as int);
            lemma_assoc_insert_sorted(s, name@, value);
        }
        let replace = p < self.sensors.len() && str_eq(self.sensors[p].0.as_str(), name.as_str());
        if replace {
            self.sensors.set(p, (name, value));
            proof {
                assert(self@ =~= s.update(p as int, (k@, value)));
            }
        } else {
            self.sensors.insert(p, (name, value));
            proof {
                assert(self@ =~= s.take(p as int).push((k@, value)) + s.skip(p as int));
            }
        }
    }

    /// Lower-or-initialize ratchet for one sensor. Never raises.
    pub fn bless(&mut self, name: &str, observed: u64) -> (o: BlessOutcome)
        requires
            old(self).wf(),
        ensures
            final(self).wf(),
            o == bless_outcome(old(self)@, name@, observed),
            final(self)@ == blessed(old(self)@, name@, observed),
    {
        match self.get(name) {
            None => {
                self.set(crate::text::owned(name), observed);
                BlessOutcome::Initialized(observed)
            },
            Some(baseline) => {
                if observed < baseline {
                    self.set(crate::text::owned(name), observed);
                    BlessOutcome::Lowered { from: baseline, to: observed }
                } else if observed == baseline {
                    BlessOutcome::Unchanged(baseline)
                } else {
                    BlessOutcome::Refused { baseline, observed }
                }
            },
        }
    }
}

impl Default for Baselines {
    /// No baselines.
    fn default() -> (b: Baselines)
        ensures
            b@ == Seq::<(Seq<char>, u64)>::empty(),
    {
        Baselines::new()
    }
}

/// A bless never raises a baseline and touches no other sensor: after
/// blessing, the blessed sensor reads the observed count when it had no
/// baseline, otherwise the smaller of the two; every other sensor reads as
/// before.
pub proof fn bless_never_raises(baselines: Seq<(Seq<char>, u64)>, name: Seq<char>, observed: u64, q: Seq<char>)
    ensures
        q != name ==> assoc_lookup(blessed(baselines, name, observed), q) == assoc_lookup(baselines, q),
        q == name ==> assoc_lookup(blessed(baselines, name, observed), q) == Some(match assoc_lookup(baselines, name) {
            Some(b) => if observed < b {
                observed
            } else {
                b
            },
            None => observed,
        }),
{
    lemma_assoc_insert_lookup(baselines, name, observed, q);
}

} // verus!
