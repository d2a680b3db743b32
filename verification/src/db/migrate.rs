//! The embedded migration catalog, migration skew, and what a migration run
//! applies.
use vstd::prelude::*;

use crate::clock::system_secs_since_epoch;
use crate::text::has_i64;

verus! {

/// A single versioned schema migration.
pub struct Migration {
    /// Schema version for ordering.
    pub version: i64,
    /// Human-readable migration name.
    pub name: &'static str,
}

/// The catalog as plain values: version and name, ascending.
pub open spec fn catalog() -> Seq<(int, Seq<char>)> {
    seq![
        (1, "init"@),
        (2, "invariants"@),
        (3, "persist"@),
        (4, "scope"@),
        (5, "beat_sensor"@),
        (6, "eval_latest"@),
        (7, "fk_strike_index"@),
        (8, "eval_history_and_baselines"@),
        (9, "workflow_events"@),
        (10, "workflow_event_chain"@),
    ]
}

/// The views of migrations.
pub open spec fn migration_views(v: Seq<Migration>) -> Seq<(int, Seq<char>)> {
    v.map_values(|m: Migration| (m.version as int, m.name@))
}

/// The embedded migration catalog, ordered by ascending version.
pub fn migrations() -> (v: Vec<Migration>)
    ensures
        migration_views(v@) == catalog(),
{
    let v = vec![
        Migration { version: 1, name: "init" },
        Migration { version: 2, name: "invariants" },
        Migration { version: 3, name: "persist" },
        Migration { version: 4, name: "scope" },
        Migration { version: 5, name: "beat_sensor" },
        Migration { version: 6, name: "eval_latest" },
        Migration { version: 7, name: "fk_strike_index" },
        Migration { version: 8, name: "eval_history_and_baselines" },
        Migration { version: 9, name: "workflow_events" },
        Migration { version: 10, name: "workflow_event_chain" },
    ];
    proof {
        assert(migration_views(v@) =~= catalog());
    }
    v
}

/// The catalog is strictly ascending by version.
pub proof fn catalog_strictly_ascending()
    ensures
        forall|i: int, j: int| 0 <= i < j < catalog().len() ==> catalog()[i].0 < catalog()[j].0,
        catalog().len() == 10,
        forall|i: int| 0 <= i < catalog().len() ==> #[trigger] catalog()[i].0 == i + 1,
{
    assert forall|i: int| 0 <= i < catalog().len() implies #[trigger] catalog()[i].0 == i + 1 by {
        assert(catalog()[0].0 == 1 && catalog()[1].0 == 2 && catalog()[2].0 == 3 && catalog()[3].0 == 4
            && catalog()[4].0 == 5 && catalog()[5].0 == 6 && catalog()[6].0 == 7 && catalog()[7].0 == 8
            && catalog()[8].0 == 9 && catalog()[9].0 == 10);
    }
}

/// Highest version in the embedded migration catalog (0 when empty).
pub fn known_max_version() -> (v: i64)
    ensures
        v == 10,
{
    let all = migrations();
    proof {
        assert(migration_views(all@).len() == 10);
    }
    let mut best: i64 = 0;
    let mut i: usize = 0;
    while i < all.len()
        invariant
            i <= all.len(),
            all.len() == 10,
            migration_views(all@) == catalog(),
            best == (if i == 0 {
                0
            } else {
                i as int
            }),
        decreases all.len() - i,
    {
        proof {
            catalog_strictly_ascending();
            assert(migration_views(all@)[i as int] == catalog()[i as int]);
        }
        if all[i].version > best {
            best = all[i].version;
        }
        i = i + 1;
    }
    best
}

/// Snapshot of migration alignment between a state database and this
/// binary's embedded catalog.
#[derive(Debug, Clone, Copy, PartialEq, Eq, Structural)]
pub struct MigrationSkew {
    /// Highest migration version recorded in the database; `None` when the
    /// database has never been migrated (no tracking table).
    pub applied_max: Option<i64>,
    /// Highest version in this binary's embedded catalog.
    pub known_max: i64,
    /// Some catalog migration is not among the applied versions.
    pub missing: bool,
}

impl MigrationSkew {
    /// The database was written by a newer harness than this binary.
    pub fn is_future(&self) -> (b: bool)
        ensures
            b == (self.applied_max matches Some(a) && a > self.known_max),
    {
        match self.applied_max {
            Some(applied) => applied > self.known_max,
            None => false,
        }
    }

    /// This binary ships migrations the database has not yet applied: its
    /// catalog goes further, or a lower catalog migration is missing.
    pub fn is_pending(&self) -> (b: bool)
        ensures
            b == (self.applied_max matches Some(a) ==> (a < self.known_max || (a <= self.known_max
                && self.missing))),
    {
        match self.applied_max {
            Some(applied) => applied < self.known_max || (applied <= self.known_max && self.missing),
            None => true,
        }
    }
}

/// A skew is never both future and pending.
pub proof fn future_excludes_pending(s: MigrationSkew)
    ensures
        !((s.applied_max matches Some(a) && a > s.known_max) && (s.applied_max matches Some(b) ==> (b
            < s.known_max || (b <= s.known_max && s.missing)))),
{
}

/// The largest of `v`, if any.
pub open spec fn max_of(v: Seq<i64>) -> Option<i64>
    decreases v.len(),
{
    if v.len() == 0 {
        None
    } else {
        match max_of(v.drop_last()) {
            Some(m) => Some(if v.last() > m {
                v.last()
            } else {
                m
            }),
            None => Some(v.last()),
        }
    }
}

/// The largest of `v`.
pub fn max_value(v: &[i64]) -> (m: Option<i64>)
    ensures
        m == max_of(v@),
{
    let mut best: Option<i64> = None;
    let mut i: usize = 0;
    while i < v.len()
        invariant
            i <= v.len(),
            best == max_of(v@.take(i as int)),
        decreases v.len() - i,
    {
        proof {
            assert(v@.take(i + 1).drop_last() =~= v@.take(i as int));
        }
        best = match best {
            Some(b) => Some(if v[i] > b {
                v[i]
            } else {
                b
            }),
            None => Some(v[i]),
        };
        i = i + 1;
    }
    proof {
        assert(v@.take(i as int) =~= v@);
    }
    best
}

/// Whether some catalog migration is missing from `applied`.
fn catalog_missing(applied: &[i64]) -> (b: bool)
    ensures
        b == (pending_versions(applied@).len() > 0),
{
    let all = migrations();
    let ghost vs = catalog().map_values(|m: (int, Seq<char>)| m.0);
    proof {
        assert(vs.len() == 10);
    }
    let mut missing = false;
    let mut i: usize = 0;
    while i < all.len()
        invariant
            i <= all.len(),
            migration_views(all@) == catalog(),
            vs == catalog().map_values(|m: (int, Seq<char>)| m.0),
            all.len() == vs.len(),
            missing == (unapplied(vs.take(i as int), applied@).len() > 0),
        decreases all.len() - i,
    {
        proof {
            assert(vs.take(i + 1).drop_last() =~= vs.take(i as int));
            assert(vs.take(i + 1).last() == vs[i as int]);
            assert(migration_views(all@)[i as int] == catalog()[i as int]);
            assert(vs[i as int] == all@[i as int].version);
        }
        if !has_i64(applied, all[i].version) {
            missing = true;
        }
        i = i + 1;
    }
    proof {
        assert(vs.take(i as int) =~= vs);
    }
    missing
}

/// The skew of a database: unmigrated when it has no tracking table,
/// otherwise the largest applied version (none when nothing is applied),
/// and whether some catalog migration has not been applied.
pub fn inspect_skew(has_table: bool, applied: &[i64]) -> (s: MigrationSkew)
    ensures
        s.known_max == 10,
        s.applied_max == (if has_table {
            max_of(applied@)
        } else {
            None
        }),
        s.missing == (!has_table || pending_versions(applied@).len() > 0),
{
    let known_max = known_max_version();
    if !has_table {
        return MigrationSkew { applied_max: None, known_max, missing: true };
    }
    MigrationSkew { applied_max: max_value(applied), known_max, missing: catalog_missing(applied) }
}

/// Why a migration run was refused.
#[derive(Debug, Clone, Copy, PartialEq, Eq, Structural)]
pub enum MigrateError {
    /// The database has a migration newer than this binary knows.
    FutureDatabase {
        /// The largest applied version this binary does not know.
        applied: i64,
        /// The highest version in this binary's catalog.
        known_max: i64,
    },
}

/// The applied versions newer than the catalog.
pub open spec fn future_versions(applied: Seq<i64>) -> Seq<i64>
    decreases applied.len(),
{
    if applied.len() == 0 {
        seq![]
    } else {
        let r = future_versions(applied.drop_last());
        if applied.last() > 10 {
            r.push(applied.last())
        } else {
            r
        }
    }
}

/// The versions of `vs` not yet applied, in order.
pub open spec fn unapplied(vs: Seq<int>, applied: Seq<i64>) -> Seq<int>
    decreases vs.len(),
{
    if vs.len() == 0 {
        seq![]
    } else {
        let r = unapplied(vs.drop_last(), applied);
        if applied.contains(vs.last() as i64) {
            r
        } else {
            r.push(vs.last())
        }
    }
}

/// The catalog versions a run applies: those not yet applied, in order.
pub open spec fn pending_versions(applied: Seq<i64>) -> Seq<int> {
    unapplied(catalog().map_values(|m: (int, Seq<char>)| m.0), applied)
}

/// Plans a migration run: refuses a database from a newer binary (naming
/// the largest unknown version), otherwise lists the catalog migrations not
/// yet applied, in ascending order.
pub fn plan_migrations(applied: &[i64]) -> (r: Result<Vec<Migration>, MigrateError>)
    ensures
        match max_of(future_versions(applied@)) {
            Some(f) => r == Err::<Vec<Migration>, MigrateError>(MigrateError::FutureDatabase { applied: f, known_max: 10 }),
            None => r matches Ok(v) && migration_views(v@).map_values(|m: (int, Seq<char>)| m.0) == pending_versions(applied@),
        },
{
    let newest = known_max_version();
    let mut future: Vec<i64> = Vec::new();
    let mut i: usize = 0;
    while i < applied.len()
        invariant
            i <= applied.len(),
            newest == 10,
            future@ == future_versions(applied@.take(i as int)),
        decreases applied.len() - i,
    {
        proof {
            assert(applied@.take(i + 1).drop_last() =~= applied@.take(i as int));
        }
        if applied[i] > newest {
            future.push(applied[i]);
        }
        i = i + 1;
    }
    proof {
        assert(applied@.take(i as int) =~= applied@);
    }
    match max_value(future.as_slice()) {
        Some(f) => return Err(MigrateError::FutureDatabase { applied: f, known_max: newest }),
        None => {},
    }
    let all = migrations();
    let ghost versions = migration_views(all@).map_values(|m: (int, Seq<char>)| m.0);
    let mut out: Vec<Migration> = Vec::new();
    let mut rest = all;
    let mut k: usize = 0;
    let n = rest.len();
    proof {
        assert(migration_views(rest@).len() == 10);
        assert(catalog().skip(0) =~= catalog());
    }
    while k < n
        invariant
            k <= n,
            n == 10,
            rest.len() == n - k,
            n == versions.len(),
            versions == catalog().map_values(|m: (int, Seq<char>)| m.0),
            migration_views(rest@) == catalog().skip(k as int),
            migration_views(out@).map_values(|m: (int, Seq<char>)| m.0) == unapplied(versions.take(k as int), applied@),
        decreases n - k,
    {
        let ghost rv0 = migration_views(rest@);
        let ghost r0 = rest@;
        proof {
            assert(rv0[0] == (rest@[0].version as int, rest@[0].name@));
        }
        let m = rest.remove(0);
        let ghost rv = migration_views(rest@);
        proof {
            assert(rest@ =~= r0.drop_first());
            assert(rv =~= rv0.drop_first());
            assert(catalog().skip(k as int).drop_first() =~= catalog().skip(k + 1));
            assert(catalog().skip(k as int)[0] == (m.version as int, m.name@));
            assert(rv =~= catalog().skip(k + 1));
            assert(versions[k as int] == m.version as int);
            assert(versions.take(k + 1).drop_last() =~= versions.take(k as int));
            assert(versions.take(k + 1).last() == versions[k as int]);
        }
        let seen = crate::text::has_i64(applied, m.version);
        let ghost before = out@;
        if !seen {
            out.push(m);
            proof {
                assert(migration_views(out@).map_values(|m: (int, Seq<char>)| m.0) =~= migration_views(before).map_values(|m: (int, Seq<char>)| m.0).push(versions[k as int]));
            }
        }
        k = k + 1;
    }
    proof {
        assert(versions.take(k as int) =~= versions);
    }
    Ok(out)
}

/// Current Unix time in whole seconds; `0` for a pre-epoch clock or a value
/// beyond `i64`.
pub fn unix_now() -> (t: i64)
    ensures
        t >= 0,
{
    match system_secs_since_epoch() {
        Some(s) => if s <= 0x7fff_ffff_ffff_ffff {
            s as i64
        } else {
            0
        },
        None => 0,
    }
}

} // verus!
