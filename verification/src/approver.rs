//! Bless-approver identity resolution: the first non-blank identity among
//! the explicit flag, `DO_HARNESS_APPROVER` and the git user email, trimmed.
//! An anonymous bless is rejected (fail-closed).
use vstd::prelude::*;

use crate::text::{from_chars, to_chars, trim, trim_chars};

verus! {

/// No non-blank approver identity could be found.
#[derive(Debug, Clone, Copy, PartialEq, Eq, Structural)]
pub struct ApproverMissing;

impl ApproverMissing {
    /// The refusal as a message.
    pub fn message(self) -> (m: String)
        ensures
            m@ == "--bless requires an approver: pass --approver <name> or set DO_HARNESS_APPROVER"@,
    {
        crate::text::owned("--bless requires an approver: pass --approver <name> or set DO_HARNESS_APPROVER")
    }
}

/// The trimmed form of a source, when it holds a non-blank identity.
pub open spec fn usable(s: Option<Seq<char>>) -> Option<Seq<char>> {
    match s {
        Some(v) => if trim(v).len() > 0 {
            Some(trim(v))
        } else {
            None
        },
        None => None,
    }
}

/// The approver the three sources give, in priority order.
pub open spec fn approver_of(
    explicit: Option<Seq<char>>,
    env_value: Option<Seq<char>>,
    git_email: Option<Seq<char>>,
) -> Option<Seq<char>> {
    match usable(explicit) {
        Some(v) => Some(v),
        None => match usable(env_value) {
            Some(v) => Some(v),
            None => usable(git_email),
        },
    }
}

/// The view of an optional string slice.
pub open spec fn opt_str_view(s: Option<&str>) -> Option<Seq<char>> {
    match s {
        Some(v) => Some(v@),
        None => None,
    }
}

/// The trimmed source, when non-blank.
fn usable_source(s: Option<&str>) -> (r: Option<String>)
    ensures
        match r {
            Some(v) => usable(opt_str_view(s)) == Some(v@),
            None => usable(opt_str_view(s)) is None,
        },
{
    match s {
        Some(v) => {
            let all = to_chars(v);
            let t = trim_chars(&all);
            if t.len() > 0 {
                Some(from_chars(&t))
            } else {
                None
            }
        },
        None => None,
    }
}

/// Resolves a bless approver from the explicit flag, the value of
/// `DO_HARNESS_APPROVER` and the output of `git config user.email` (each
/// `None` when absent or unreadable): the first that is non-blank, trimmed.
pub fn resolve(explicit: Option<&str>, env_value: Option<&str>, git_email: Option<&str>) -> (r: Result<String, ApproverMissing>)
    ensures
        match approver_of(opt_str_view(explicit), opt_str_view(env_value), opt_str_view(git_email)) {
            Some(v) => r matches Ok(a) && a@ == v,
            None => r is Err,
        },
{
    if let Some(v) = usable_source(explicit) {
        return Ok(v);
    }
    if let Some(v) = usable_source(env_value) {
        return Ok(v);
    }
    match usable_source(git_email) {
        Some(v) => Ok(v),
        None => Err(ApproverMissing),
    }
}

} // verus!
