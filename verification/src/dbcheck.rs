//! State-database health classification: the store compared with this
//! binary's migration catalog, without mutating it.
use vstd::prelude::*;

use crate::db::migrate::MigrationSkew;
use crate::text::{append_str, i64_to_string, int_repr, owned};

verus! {

/// Classified health of the state database relative to this binary.
#[derive(Debug, Clone, Copy, PartialEq, Eq, Structural)]
pub enum DbHealth {
    /// No database file exists yet.
    Absent,
    /// The database file exists but carries no migration tracking table.
    Uninitialized,
    /// This binary ships migrations the database has not applied yet.
    Pending {
        /// Highest version applied in the database.
        applied: i64,
        /// Highest version in the binary's catalog.
        known: i64,
    },
    /// Applied migrations match the embedded catalog exactly.
    Current,
    /// The database was written by a newer harness.
    Future {
        /// Highest version applied in the database.
        applied: i64,
        /// Highest version in the binary's catalog.
        known: i64,
    },
}

/// The doctor line of a health state: severity mark and message.
pub open spec fn health_line(h: DbHealth) -> (Seq<char>, Seq<char>) {
    match h {
        DbHealth::Absent => ("WARN"@, "absent (run: do-harness init-db)"@),
        DbHealth::Uninitialized => ("WARN"@, "exists but was never migrated (run: do-harness init-db)"@),
        DbHealth::Pending { applied, known } => (
            "WARN"@,
            "pending migrations ("@ + int_repr(applied as int) + " applied, "@ + int_repr(known as int)
                + " known; run: do-harness init-db)"@,
        ),
        DbHealth::Current => ("OK"@, "migrations aligned"@),
        DbHealth::Future { applied, known } => (
            "FAIL"@,
            "newer than this binary ("@ + int_repr(applied as int) + " applied, max "@ + int_repr(known as int)
                + "); rebuild: cargo build --release -p do-harness"@,
        ),
    }
}

impl DbHealth {
    /// Whether this state blocks persistence commands outright: only a
    /// database from a newer binary does.
    pub fn is_blocking(self) -> (b: bool)
        ensures
            b == (self is Future),
    {
        match self {
            DbHealth::Future { .. } => true,
            _ => false,
        }
    }

    /// Renders the doctor line: severity mark plus human-readable message.
    pub fn render(self) -> (r: (&'static str, String))
        ensures
            (r.0@, r.1@) == health_line(self),
    {
        match self {
            DbHealth::Absent => ("WARN", owned("absent (run: do-harness init-db)")),
            DbHealth::Uninitialized => ("WARN", owned("exists but was never migrated (run: do-harness init-db)")),
            DbHealth::Pending { applied, known } => {
                let mut m = owned("pending migrations (");
                let a = i64_to_string(applied);
                append_str(&mut m, a.as_str());
                append_str(&mut m, " applied, ");
                let k = i64_to_string(known);
                append_str(&mut m, k.as_str());
                append_str(&mut m, " known; run: do-harness init-db)");
                ("WARN", m)
            },
            DbHealth::Current => ("OK", owned("migrations aligned")),
            DbHealth::Future { applied, known } => {
                let mut m = owned("newer than this binary (");
                let a = i64_to_string(applied);
                append_str(&mut m, a.as_str());
                append_str(&mut m, " applied, max ");
                let k = i64_to_string(known);
                append_str(&mut m, k.as_str());
                append_str(&mut m, "); rebuild: cargo build --release -p do-harness");
                ("FAIL", m)
            },
        }
    }
}

/// The health a probe reports: absent without a database file; otherwise
/// by the skew: unmigrated, future, pending (the catalog goes further, or a
/// catalog migration is missing), or current (every catalog migration
/// applied, none newer).
pub open spec fn health_of(exists: bool, skew: MigrationSkew) -> DbHealth {
    if !exists {
        DbHealth::Absent
    } else {
        match skew.applied_max {
            None => DbHealth::Uninitialized,
            Some(applied) => if applied > skew.known_max {
                DbHealth::Future { applied, known: skew.known_max }
            } else if applied < skew.known_max || skew.missing {
                DbHealth::Pending { applied, known: skew.known_max }
            } else {
                DbHealth::Current
            },
        }
    }
}

/// Classifies the state database from whether its file exists and, when it
/// does, its migration skew.
pub fn classify(exists: bool, skew: &MigrationSkew) -> (h: DbHealth)
    ensures
        h == health_of(exists, *skew),
{
    if !exists {
        return DbHealth::Absent;
    }
    match skew.applied_max {
        None => DbHealth::Uninitialized,
        Some(applied) => {
            if skew.is_future() {
                DbHealth::Future { applied, known: skew.known_max }
            } else if skew.is_pending() {
                DbHealth::Pending { applied, known: skew.known_max }
            } else {
                DbHealth::Current
            }
        },
    }
}

} // verus!
