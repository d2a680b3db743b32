//! Decisions of the database-facing commands (`init-db`, `maintenance`):
//! what a run does given the database health and its options.
use vstd::prelude::*;

use crate::dbcheck::DbHealth;
use crate::text::{ascii_lower_seq, char_ascii_lower, to_chars, trim, trim_chars};

verus! {

/// Options for `init-db`.
#[derive(Debug, Clone, Copy, PartialEq, Eq, Structural)]
pub struct InitDbOpts {
    /// Report pending migrations and exit non-zero when any are pending.
    pub check: bool,
    /// Report migration state without applying anything (exit 0).
    pub dry_run: bool,
    /// Skip the interactive confirmation prompt.
    pub yes: bool,
}

/// What an `init-db` run does next.
#[derive(Debug, Clone, Copy, PartialEq, Eq, Structural)]
pub enum InitDbStep {
    /// Print the health line and write nothing; `fail` says whether the run
    /// then fails (`--check` on a database that is not current).
    Report { fail: bool },
    /// Ask on the terminal before applying the pending migrations.
    Confirm,
    /// Apply pending migrations.
    Apply,
}

/// The step an `init-db` run takes: `--check`/`--dry-run` never write;
/// pending migrations are confirmed on an interactive terminal unless
/// `--yes`; everything else applies.
pub open spec fn init_db_step_of(health: DbHealth, opts: InitDbOpts, interactive: bool) -> InitDbStep {
    if opts.check || opts.dry_run {
        InitDbStep::Report { fail: opts.check && health != DbHealth::Current }
    } else if (health is Pending) && !opts.yes && interactive {
        InitDbStep::Confirm
    } else {
        InitDbStep::Apply
    }
}

/// Decides what an `init-db` run does, from the probed health, the options
/// and whether standard input is a terminal.
pub fn init_db_step(health: DbHealth, opts: &InitDbOpts, interactive: bool) -> (s: InitDbStep)
    ensures
        s == init_db_step_of(health, *opts, interactive),
{
    if opts.check || opts.dry_run {
        let current = match health {
            DbHealth::Current => true,
            _ => false,
        };
        return InitDbStep::Report { fail: opts.check && !current };
    }
    let pending = match health {
        DbHealth::Pending { .. } => true,
        _ => false,
    };
    if pending && !opts.yes && interactive {
        InitDbStep::Confirm
    } else {
        InitDbStep::Apply
    }
}

/// Whether a confirmation answer accepts: `y` or `yes`, any ASCII case,
/// surrounding whitespace ignored.
pub open spec fn accepts(answer: Seq<char>) -> bool {
    let a = ascii_lower_seq(trim(answer));
    a == "y"@ || a == "yes"@
}

/// Reads a confirmation answer.
pub fn confirmed(answer: &str) -> (b: bool)
    ensures
        b == accepts(answer@),
{
    let all = to_chars(answer);
    let t = trim_chars(&all);
    let mut low: Vec<char> = Vec::new();
    let mut i: usize = 0;
    while i < t.len()
        invariant
            i <= t.len(),
            low@ == ascii_lower_seq(t@).take(i as int),
        decreases t.len() - i,
    {
        let c = char_ascii_lower(t[i]);
        low.push(c);
        proof {
            assert(low@ =~= ascii_lower_seq(t@).take(i + 1));
        }
        i = i + 1;
    }
    proof {
        assert(ascii_lower_seq(t@).take(i as int) =~= ascii_lower_seq(t@));
        reveal_strlit("y");
        reveal_strlit("yes");
    }
    if low.len() == 1 {
        let r = low[0] == 'y';
        proof {
            if r {
                assert(low@ =~= "y"@);
            } else {
                assert(low@[0] != "y"@[0]);
            }
        }
        r
    } else if low.len() == 3 {
        let r = low[0] == 'y' && low[1] == 'e' && low[2] == 's';
        proof {
            if r {
                assert(low@ =~= "yes"@);
            } else {
                assert(low@[0] != "yes"@[0] || low@[1] != "yes"@[1] || low@[2] != "yes"@[2]);
            }
        }
        r
    } else {
        false
    }
}

/// The beat-pruning cutoff: `now` minus `days` (negative read as zero) whole
/// days, each step saturating at the bounds of `i64`.
pub open spec fn prune_cutoff_of(now: int, days: int) -> int {
    let d = if days < 0 {
        0
    } else {
        days
    };
    let span = if d * 86_400 > i64::MAX {
        i64::MAX as int
    } else {
        d * 86_400
    };
    if now - span < i64::MIN {
        i64::MIN as int
    } else {
        now - span
    }
}

/// What `maintenance --prune-beats <days>` deletes: beats older than the
/// returned cutoff, keeping at least the returned count per task (a
/// negative keep count is read as zero).
pub fn prune_plan(now: i64, days: i64, keep_per_task: i64) -> (r: (i64, i64))
    ensures
        r.0 == prune_cutoff_of(now as int, days as int),
        r.1 == (if keep_per_task < 0 {
            0
        } else {
            keep_per_task
        }),
{
    let d: i64 = if days < 0 {
        0
    } else {
        days
    };
    let span: i64 = if d > i64::MAX / 86_400 {
        i64::MAX
    } else {
        d * 86_400
    };
    proof {
        if d > i64::MAX / 86_400 {
            assert(d * 86_400 > i64::MAX) by (nonlinear_arith)
                requires
                    d > i64::MAX / 86_400,
            ;
        } else {
            assert(d * 86_400 <= i64::MAX) by (nonlinear_arith)
                requires
                    d <= i64::MAX / 86_400,
            ;
        }
    }
    let cutoff: i64 = if now < i64::MIN + span {
        i64::MIN
    } else {
        now - span
    };
    let keep: i64 = if keep_per_task < 0 {
        0
    } else {
        keep_per_task
    };
    (cutoff, keep)
}

} // verus!
