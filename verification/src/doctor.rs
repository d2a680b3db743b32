//! The `doctor` outcome: which findings fail the run, from what was
//! probed (binary resolution, hook installation, state-database
//! health, orphan tasks).
use vstd::prelude::*;

use crate::dbcheck::{health_line, DbHealth};
use crate::text::{append_str, i64_to_string, int_repr, join_strings, join_with, owned, string_views};

verus! {

/// What probing the state database gave.
pub enum DbProbe {
    /// Its classified health.
    Health(DbHealth),
    /// It could not be read; the error text.
    Unreadable(String),
}

/// What the host program found.
pub struct DoctorFacts {
    /// Resolved binary path.
    pub bin_path: String,
    /// Whether the resolved binary exists.
    pub bin_present: bool,
    /// Whether the (canonical) binary path lies under a `target` directory.
    pub bin_in_target: bool,
    /// Whether each managed hook is installed.
    pub pre_commit: bool,
    pub pre_push: bool,
    pub commit_msg: bool,
    /// The state-database probe.
    pub database: DbProbe,
    /// Tasks without a `TaskAdded` event.
    pub orphan_tasks: i64,
}

/// The failures a doctor run reports, in check order.
pub open spec fn failures_of(f: DoctorFacts, strict: bool) -> Seq<Seq<char>> {
    let a: Seq<Seq<char>> = if !f.bin_present {
        seq!["binary missing at "@ + f.bin_path@]
    } else {
        seq![]
    };
    let b: Seq<Seq<char>> = if strict && f.bin_in_target {
        seq!["binary is under target/ in strict mode: "@ + f.bin_path@]
    } else {
        seq![]
    };
    let c: Seq<Seq<char>> = if strict && !(f.pre_commit && f.pre_push && f.commit_msg) {
        seq!["one or more managed git hooks absent in strict mode"@]
    } else {
        seq![]
    };
    let d: Seq<Seq<char>> = match f.database {
        DbProbe::Unreadable(e) => seq!["state database unreadable: "@ + e@],
        DbProbe::Health(h) => if h is Future {
            seq![health_line(h).1]
        } else {
            seq![]
        },
    };
    let e: Seq<Seq<char>> = if f.orphan_tasks > 0 {
        seq![int_repr(f.orphan_tasks as int) + " task(s) have no TaskAdded event (out-of-band write)"@]
    } else {
        seq![]
    };
    a + b + c + d + e
}

/// The findings that fail a doctor run, in check order: a missing binary; in
/// strict mode a binary under `target/` and absent hooks; an unreadable or
/// newer-than-binary state database; tasks without a `TaskAdded` event.
pub fn doctor_failures(f: &DoctorFacts, strict: bool) -> (out: Vec<String>)
    ensures
        string_views(out@) == failures_of(*f, strict),
{
    let mut out: Vec<String> = Vec::new();
    let ghost s0 = string_views(out@);
    if !f.bin_present {
        out.push(crate::text::concat("binary missing at ", f.bin_path.as_str()));
    }
    let ghost s1 = string_views(out@);
    if strict && f.bin_in_target {
        out.push(crate::text::concat("binary is under target/ in strict mode: ", f.bin_path.as_str()));
    }
    let ghost s2 = string_views(out@);
    if strict && !(f.pre_commit && f.pre_push && f.commit_msg) {
        out.push(owned("one or more managed git hooks absent in strict mode"));
    }
    let ghost s3 = string_views(out@);
    match &f.database {
        DbProbe::Unreadable(e) => {
            out.push(crate::text::concat("state database unreadable: ", e.as_str()));
        },
        DbProbe::Health(h) => {
            if h.is_blocking() {
                let (_, line) = h.render();
                out.push(line);
            }
        },
    }
    let ghost s4 = string_views(out@);
    if f.orphan_tasks > 0 {
        let mut m = i64_to_string(f.orphan_tasks);
        append_str(&mut m, " task(s) have no TaskAdded event (out-of-band write)");
        out.push(m);
    }
    proof {
        let l = failures_of(*f, strict);
        assert(string_views(out@) =~= l);
    }
    out
}

/// The error a failed doctor run ends with.
pub fn doctor_verdict(failures: &Vec<String>) -> (r: Result<(), String>)
    ensures
        failures.len() == 0 ==> r is Ok,
        failures.len() > 0 ==> (r matches Err(m) && m@ == "doctor check failed: "@ + join_with(string_views(failures@), "; "@)),
{
    if failures.len() == 0 {
        return Ok(());
    }
    let joined = join_strings(failures.as_slice(), "; ");
    Err(crate::text::concat("doctor check failed: ", joined.as_str()))
}

} // verus!
