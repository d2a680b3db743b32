use vstd::prelude::*;

pub mod text;
pub mod clock;
pub mod dora;
pub mod order;
pub mod lines;
pub mod digest;
pub mod paths;
pub mod seqs;
pub mod assoc;
pub mod glob;
pub mod config;
pub mod ci_explain;
pub mod distill_strikes;
pub mod distill;
pub mod changes;
pub mod applicability;
pub mod binary;
pub mod baselines;
pub mod audit;
pub mod audit_chain;
pub mod compliance;
pub mod db;
pub mod dbcheck;
pub mod artifacts;
pub mod doctor;
pub mod approver;

verus! {
} // verus!
