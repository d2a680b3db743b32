//! Harness configuration: sensors, hook selections, named signal sets, and
//! the built-in Rust sensor pack.
use vstd::prelude::*;

use crate::assoc::{assoc_insert, assoc_lookup, keys_ascending, lemma_assoc_insert_at, lemma_assoc_insert_sorted, lemma_assoc_lookup_first, lemma_assoc_lookup_none};
use crate::glob::{build_glob_set, compile_glob, glob_compiles, glob_set_builds};
use crate::order::{chars_lt, text_lt, lemma_key_order};
use crate::seqs::{first_some, lemma_first_some_prefix, lemma_first_some_step};
use crate::text::{char_is_ascii_alnum, is_ascii_alnum, list_has, list_has_before, str_eq, string_views, to_chars};

verus! {

/// A single computational sensor.
pub struct SensorSpec {
    /// Unique sensor name (e.g. "fmt").
    pub name: String,
    /// Command line, program first.
    pub argv: Vec<String>,
    /// Optional number of retry attempts on failure.
    pub retry: Option<u32>,
    /// Optional process execution timeout budget in seconds.
    pub timeout: Option<u64>,
    /// Whether failure is advisory and does not fail the verify gate.
    pub allow_failure: bool,
    /// Exit codes that signal transient failures eligible for retry.
    pub transient_exit_codes: Vec<i32>,
    /// Repository-relative glob patterns selecting when this sensor applies
    /// to the current change; empty means always.
    pub when_changed: Vec<String>,
}

/// A sensor as plain values: name, argv, retry, timeout, advisory flag,
/// transient exit codes, applicability patterns.
pub type SensorView = (Seq<char>, Seq<Seq<char>>, Option<u32>, Option<u64>, bool, Seq<i32>, Seq<Seq<char>>);

impl View for SensorSpec {
    type V = SensorView;

    open spec fn view(&self) -> SensorView {
        (
            self.name@,
            string_views(self.argv@),
            self.retry,
            self.timeout,
            self.allow_failure,
            self.transient_exit_codes@,
            string_views(self.when_changed@),
        )
    }
}

/// The views of a list of sensors.
pub open spec fn sensor_views(v: Seq<SensorSpec>) -> Seq<SensorView> {
    v.map_values(|s: SensorSpec| s@)
}

/// A copy of a list of strings.
pub fn copy_strings(v: &Vec<String>) -> (out: Vec<String>)
    ensures
        string_views(out@) == string_views(v@),
{
    let mut out: Vec<String> = Vec::new();
    let mut i: usize = 0;
    while i < v.len()
        invariant
            i <= v.len(),
            string_views(out@) == string_views(v@.take(i as int)),
        decreases v.len() - i,
    {
        let ghost before = out@;
        out.push(v[i].clone());
        proof {
            assert(string_views(out@) =~= string_views(before).push(v@[i as int]@));
            assert(string_views(v@.take(i + 1)) =~= string_views(v@.take(i as int)).push(v@[i as int]@));
        }
        i = i + 1;
    }
    proof {
        assert(v@.take(i as int) =~= v@);
    }
    out
}

impl SensorSpec {
    /// A copy of this sensor.
    pub fn copied(&self) -> (c: SensorSpec)
        ensures
            c@ == self@,
    {
        let mut codes: Vec<i32> = Vec::new();
        let mut i: usize = 0;
        while i < self.transient_exit_codes.len()
            invariant
                i <= self.transient_exit_codes.len(),
                codes@ == self.transient_exit_codes@.take(i as int),
            decreases self.transient_exit_codes.len() - i,
        {
            codes.push(self.transient_exit_codes[i]);
            proof {
                assert(self.transient_exit_codes@.take(i + 1) =~= self.transient_exit_codes@.take(i as int).push(self.transient_exit_codes@[i as int]));
            }
            i = i + 1;
        }
        proof {
            assert(self.transient_exit_codes@.take(i as int) =~= self.transient_exit_codes@);
        }
        SensorSpec {
            name: self.name.clone(),
            argv: copy_strings(&self.argv),
            retry: self.retry,
            timeout: self.timeout,
            allow_failure: self.allow_failure,
            transient_exit_codes: codes,
            when_changed: copy_strings(&self.when_changed),
        }
    }
}

/// A copy of a list of sensors.
pub fn copy_sensors(v: &Vec<SensorSpec>) -> (out: Vec<SensorSpec>)
    ensures
        sensor_views(out@) == sensor_views(v@),
{
    let mut out: Vec<SensorSpec> = Vec::new();
    let mut i: usize = 0;
    while i < v.len()
        invariant
            i <= v.len(),
            sensor_views(out@) == sensor_views(v@.take(i as int)),
        decreases v.len() - i,
    {
        let ghost before = out@;
        let c = v[i].copied();
        out.push(c);
        proof {
            assert(sensor_views(out@) =~= sensor_views(before).push(v@[i as int]@));
            assert(sensor_views(v@.take(i + 1)) =~= sensor_views(v@.take(i as int)).push(v@[i as int]@));
        }
        i = i + 1;
    }
    proof {
        assert(v@.take(i as int) =~= v@);
    }
    out
}

/// Which sensors each workflow gate runs.
pub struct HooksConfig {
    /// Sensors for pre-commit; empty = full suite.
    pub pre_commit: Vec<String>,
    /// Sensors for pre-push; empty = full suite.
    pub pre_push: Vec<String>,
}

/// Named signal sets, kept in ascending name order with each name once.
pub struct SignalSets {
    entries: Vec<(String, Vec<String>)>,
}

/// A signal set as plain values: its name and its sensor names.
pub type SetView = (Seq<char>, Seq<Seq<char>>);

impl View for SignalSets {
    type V = Seq<SetView>;

    closed spec fn view(&self) -> Seq<SetView> {
        self.entries@.map_values(|e: (String, Vec<String>)| (e.0@, string_views(e.1@)))
    }
}

impl SignalSets {
    /// Well-formed: names strictly ascending, so each name occurs once.
    pub open spec fn wf(&self) -> bool {
        keys_ascending(self@)
    }

    /// No signal sets.
    pub fn new() -> (s: SignalSets)
        ensures
            s@ == Seq::<SetView>::empty(),
            s.wf(),
    {
        let s = SignalSets { entries: Vec::new() };
        proof {
            assert(s@ =~= Seq::<SetView>::empty());
        }
        s
    }

    /// Number of signal sets.
    pub fn len(&self) -> (n: usize)
        ensures
            n == self@.len(),
    {
        self.entries.len()
    }

    /// The name and sensor names of the `i`-th set, in name order.
    pub fn entry(&self, i: usize) -> (e: (&String, &Vec<String>))
        requires
            i < self@.len(),
        ensures
            e.0@ == self@[i as int].0,
            string_views(e.1@) == self@[i as int].1,
    {
        let e = &self.entries[i];
        (&e.0, &e.1)
    }

    /// Sets `key` to `names`, replacing any set of that name.
    pub fn insert(&mut self, key: String, names: Vec<String>)
        requires
            old(self).wf(),
        ensures
            final(self).wf(),
            final(self)@ == assoc_insert(old(self)@, key@, string_views(names@)),
    {
        let ghost s = self@;
        let k = to_chars(key.as_str());
        let mut p: usize = 0;
        let mut searching = true;
        while searching && p < self.entries.len()
            invariant
                p <= self.entries.len(),
                self@ == s,
                self.entries@.len() == s.len(),
                forall|i: int| 0 <= i < s.len() ==> #[trigger] s[i] == (self.entries@[i].0@, string_views(self.entries@[i].1@)),
                forall|i: int| 0 <= i < p ==> text_lt(#[trigger] s[i].0, k@),
                !searching ==> p < s.len() && !text_lt(s[p as int].0, k@),
            decreases self.entries.len() - p, if searching { 1int } else { 0int },
        {
            let name = to_chars(self.entries[p].0.as_str());
            proof {
                assert(s[p as int] == (self.entries@[p as int].0@, string_views(self.entries@[p as int].1@)));
            }
            if !chars_lt(&name, &k) {
                searching = false;
            } else {
                p = p + 1;
            }
        }
        proof {
            lemma_assoc_insert_at(s, key@, string_views(names@), p as int);
            lemma_assoc_insert_sorted(s, key@, string_views(names@));
        }
        let replace = p < self.entries.len() && str_eq(self.entries[p].0.as_str(), key.as_str());
        let ghost nv = string_views(names@);
        if replace {
            let ghost before = self.entries@;
            self.entries.set(p, (key, names));
            proof {
                assert(self@ =~= s.update(p as int, (k@, nv)));
            }
        } else {
            let ghost before = self.entries@;
            self.entries.insert(p, (key, names));
            proof {
                assert(self@ =~= s.take(p as int).push((k@, nv)) + s.skip(p as int));
            }
        }
    }

    /// The sensor names of the set called `key`, if any.
    pub fn get(&self, key: &str) -> (r: Option<&Vec<String>>)
        ensures
            match r {
                Some(v) => assoc_lookup(self@, key@) == Some(string_views(v@)),
                None => assoc_lookup(self@, key@) is None,
            },
    {
        let mut i: usize = 0;
        while i < self.entries.len()
            invariant
                i <= self.entries.len(),
                forall|j: int| 0 <= j < i ==> #[trigger] self@[j].0 != key@,
            decreases self.entries.len() - i,
        {
            if str_eq(self.entries[i].0.as_str(), key) {
                proof {
                    lemma_assoc_lookup_first(self@, key@, i as int);
                }
                return Some(&self.entries[i].1);
            }
            i = i + 1;
        }
        proof {
            lemma_assoc_lookup_none(self@, key@);
        }
        None
    }
}

/// Parsed harness configuration.
pub struct Config {
    /// Optional host language tag.
    pub language: Option<String>,
    /// Hook sensor selection.
    pub hooks: HooksConfig,
    /// Named development signal sets: each maps a decision name to the
    /// ordered sensor names that provide evidence for it.
    pub signal_sets: SignalSets,
    /// Ordered computational sensors; empty means the built-in Rust pack.
    pub sensors: Vec<SensorSpec>,
}

/// Language pack identifiers accepted in `Config.language`.
pub open spec fn supported_language(l: Seq<char>) -> bool {
    l == "rust"@ || l == "generic"@
}

/// Builds a built-in sensor spec with the pack-default execution policy
/// (no retries, no timeout, mandatory pass, always applicable).
pub fn spec(name: &str, argv: &[&str]) -> (s: SensorSpec)
    ensures
        s@ == (name@, argv@.map_values(|a: &str| a@), None::<u32>, None::<u64>, false, Seq::<i32>::empty(), Seq::<Seq<char>>::empty()),
{
    let mut args: Vec<String> = Vec::new();
    let mut i: usize = 0;
    while i < argv.len()
        invariant
            i <= argv.len(),
            string_views(args@) == argv@.take(i as int).map_values(|a: &str| a@),
        decreases argv.len() - i,
    {
        let ghost before = args@;
        args.push(crate::text::owned(argv[i]));
        proof {
            assert(string_views(args@) =~= string_views(before).push(argv@[i as int]@));
            assert(argv@.take(i + 1).map_values(|a: &str| a@) =~= argv@.take(i as int).map_values(|a: &str| a@).push(argv@[i as int]@));
        }
        i = i + 1;
    }
    proof {
        assert(argv@.take(i as int) =~= argv@);
    }
    let s = SensorSpec {
        name: crate::text::owned(name),
        argv: args,
        retry: None,
        timeout: None,
        allow_failure: false,
        transient_exit_codes: Vec::new(),
        when_changed: Vec::new(),
    };
    proof {
        assert(string_views(s.when_changed@) =~= Seq::<Seq<char>>::empty());
    }
    s
}

/// Names of the built-in Rust pack, in canonical order.
pub open spec fn rust_pack_names() -> Seq<Seq<char>> {
    seq!["fmt"@, "check"@, "clippy"@, "test"@, "loc"@, "deps"@, "audit"@, "commitlint"@]
}

/// Command lines of the built-in Rust pack, in canonical order.
pub open spec fn rust_pack_argvs() -> Seq<Seq<Seq<char>>> {
    seq![
        seq!["cargo"@, "fmt"@, "--all"@, "--"@, "--check"@],
        seq!["cargo"@, "check"@, "--workspace"@],
        seq!["cargo"@, "clippy"@, "--workspace"@, "--"@, "-D"@, "warnings"@],
        seq!["cargo"@, "test"@, "--workspace"@],
        seq!["bash"@, "scripts/check-loc.sh"@],
        seq!["bash"@, "scripts/check-deps.sh"@],
        seq!["bash"@, "scripts/check-audit.sh"@],
        seq!["bash"@, "scripts/check-commitlint.sh"@],
    ]
}

/// The built-in Rust pack as plain values.
pub open spec fn rust_pack_views() -> Seq<SensorView> {
    Seq::new(8, |k: int| (rust_pack_names()[k], rust_pack_argvs()[k], None::<u32>, None::<u64>, false, Seq::<i32>::empty(), Seq::<Seq<char>>::empty()))
}

/// Builds the built-in Rust sensor pack.
pub fn rust_pack() -> (v: Vec<SensorSpec>)
    ensures
        sensor_views(v@) == rust_pack_views(),
{
    let mut v: Vec<SensorSpec> = Vec::new();
    let a0 = ["cargo", "fmt", "--all", "--", "--check"];
    let a1 = ["cargo", "check", "--workspace"];
    let a2 = ["cargo", "clippy", "--workspace", "--", "-D", "warnings"];
    let a3 = ["cargo", "test", "--workspace"];
    let a4 = ["bash", "scripts/check-loc.sh"];
    let a5 = ["bash", "scripts/check-deps.sh"];
    let a6 = ["bash", "scripts/check-audit.sh"];
    let a7 = ["bash", "scripts/check-commitlint.sh"];
    proof {
        assert(a0@.map_values(|a: &str| a@) =~= rust_pack_argvs()[0]);
        assert(a1@.map_values(|a: &str| a@) =~= rust_pack_argvs()[1]);
        assert(a2@.map_values(|a: &str| a@) =~= rust_pack_argvs()[2]);
        assert(a3@.map_values(|a: &str| a@) =~= rust_pack_argvs()[3]);
        assert(a4@.map_values(|a: &str| a@) =~= rust_pack_argvs()[4]);
        assert(a5@.map_values(|a: &str| a@) =~= rust_pack_argvs()[5]);
        assert(a6@.map_values(|a: &str| a@) =~= rust_pack_argvs()[6]);
        assert(a7@.map_values(|a: &str| a@) =~= rust_pack_argvs()[7]);
    }
    v.push(spec("fmt", &a0));
    v.push(spec("check", &a1));
    v.push(spec("clippy", &a2));
    v.push(spec("test", &a3));
    v.push(spec("loc", &a4));
    v.push(spec("deps", &a5));
    v.push(spec("audit", &a6));
    v.push(spec("commitlint", &a7));
    proof {
        assert(sensor_views(v@) =~= rust_pack_views());
    }
    v
}

/// The effective sensors of a configuration: the configured ones, none for
/// the generic pack, otherwise the built-in Rust pack.
pub open spec fn effective_views(language: Option<Seq<char>>, sensors: Seq<SensorView>) -> Seq<SensorView> {
    if sensors.len() > 0 {
        sensors
    } else if language == Some("generic"@) {
        seq![]
    } else {
        rust_pack_views()
    }
}

/// The names of a list of sensors.
pub open spec fn view_names(v: Seq<SensorView>) -> Seq<Seq<char>> {
    v.map_values(|s: SensorView| s.0)
}

/// Whether a signal-set key is a safe set name and evidence-file stem:
/// non-empty, letters, digits, `.`, `_` or `-` only.
pub open spec fn valid_set_name(set: Seq<char>) -> bool {
    set.len() > 0 && forall|i: int| 0 <= i < set.len() ==> is_ascii_alnum(#[trigger] set[i]) || set[i] == '.' || set[i] == '_' || set[i] == '-'
}

/// Whether a signal-set key is a safe set name.
pub fn is_valid_set_name(set: &str) -> (b: bool)
    ensures
        b == valid_set_name(set@),
{
    let cs = to_chars(set);
    if cs.len() == 0 {
        return false;
    }
    let mut i: usize = 0;
    while i < cs.len()
        invariant
            i <= cs.len(),
            cs@ == set@,
            forall|j: int| 0 <= j < i ==> is_ascii_alnum(#[trigger] cs@[j]) || cs@[j] == '.' || cs@[j] == '_' || cs@[j] == '-',
        decreases cs.len() - i,
    {
        let c = cs[i];
        if !(char_is_ascii_alnum(c) || c == '.' || c == '_' || c == '-') {
            return false;
        }
        i = i + 1;
    }
    true
}

/// Why a configuration was rejected.
#[derive(Debug)]
pub enum ConfigError {
    /// The language pack is not `rust` or `generic`.
    UnsupportedLanguage(String),
    /// A sensor's `when-changed` pattern (sensor, pattern) does not compile.
    InvalidPattern(String, String),
    /// A sensor's `when-changed` patterns do not build into a set.
    UnusablePatterns(String),
    /// A signal-set name uses characters outside the safe set.
    InvalidSetName(String),
    /// A signal set (set, sensor) names a sensor twice.
    DuplicateSensor(String, String),
    /// A signal set (set, sensor) names a sensor that is not configured.
    UnknownSensor(String, String),
}

/// A configuration fault as plain values.
pub enum ConfigFault {
    UnsupportedLanguage(Seq<char>),
    InvalidPattern(Seq<char>, Seq<char>),
    UnusablePatterns(Seq<char>),
    InvalidSetName(Seq<char>),
    DuplicateSensor(Seq<char>, Seq<char>),
    UnknownSensor(Seq<char>, Seq<char>),
}

/// The fault an error reports.
pub open spec fn fault_of(e: ConfigError) -> ConfigFault {
    match e {
        ConfigError::UnsupportedLanguage(l) => ConfigFault::UnsupportedLanguage(l@),
        ConfigError::InvalidPattern(s, p) => ConfigFault::InvalidPattern(s@, p@),
        ConfigError::UnusablePatterns(s) => ConfigFault::UnusablePatterns(s@),
        ConfigError::InvalidSetName(s) => ConfigFault::InvalidSetName(s@),
        ConfigError::DuplicateSensor(s, n) => ConfigFault::DuplicateSensor(s@, n@),
        ConfigError::UnknownSensor(s, n) => ConfigFault::UnknownSensor(s@, n@),
    }
}

/// A pattern that does not compile, as a fault candidate.
pub open spec fn bad_pattern_fn() -> spec_fn(Seq<char>) -> Option<Seq<char>> {
    |p: Seq<char>| if glob_compiles(p, true) {
        None
    } else {
        Some(p)
    }
}

/// The first `when-changed` pattern of `sensor` that does not compile, else
/// whether the patterns fail to build into a set.
pub open spec fn glob_fault(sensor: SensorView) -> Option<ConfigFault> {
    match first_some(sensor.6, bad_pattern_fn()) {
        Some(p) => Some(ConfigFault::InvalidPattern(sensor.0, p)),
        None => if sensor.6.len() > 0 && !glob_set_builds(sensor.6, true) {
            Some(ConfigFault::UnusablePatterns(sensor.0))
        } else {
            None
        },
    }
}

/// The first fault among a signal set's sensor names: a name seen earlier
/// in the set, or one not among `known`.
pub open spec fn names_fault(set: Seq<char>, names: Seq<Seq<char>>, known: Seq<Seq<char>>) -> Option<ConfigFault>
    decreases names.len(),
{
    if names.len() == 0 {
        None
    } else {
        match names_fault(set, names.drop_last(), known) {
            Some(f) => Some(f),
            None => if names.drop_last().contains(names.last()) {
                Some(ConfigFault::DuplicateSensor(set, names.last()))
            } else if !known.contains(names.last()) {
                Some(ConfigFault::UnknownSensor(set, names.last()))
            } else {
                None
            },
        }
    }
}

/// The fault of one signal set.
pub open spec fn set_fault(set: SetView, known: Seq<Seq<char>>) -> Option<ConfigFault> {
    if !valid_set_name(set.0) {
        Some(ConfigFault::InvalidSetName(set.0))
    } else {
        names_fault(set.0, set.1, known)
    }
}

/// `glob_fault` as a function value.
pub open spec fn glob_fault_fn() -> spec_fn(SensorView) -> Option<ConfigFault> {
    |s: SensorView| glob_fault(s)
}

/// `set_fault` against `known` as a function value.
pub open spec fn set_fault_fn(known: Seq<Seq<char>>) -> spec_fn(SetView) -> Option<ConfigFault> {
    |s: SetView| set_fault(s, known)
}

/// The first fault of a configuration, in check order: the language, then
/// each configured sensor's patterns, then each signal set in name order.
pub open spec fn config_fault(language: Option<Seq<char>>, sets: Seq<SetView>, sensors: Seq<SensorView>) -> Option<ConfigFault> {
    let known = view_names(effective_views(language, sensors));
    match language {
        Some(l) if !supported_language(l) => Some(ConfigFault::UnsupportedLanguage(l)),
        _ => match first_some(sensors, glob_fault_fn()) {
            Some(f) => Some(f),
            None => first_some(sets, set_fault_fn(known)),
        },
    }
}

/// The view of an optional string.
pub open spec fn opt_str(s: Option<String>) -> Option<Seq<char>> {
    match s {
        Some(v) => Some(v@),
        None => None,
    }
}

/// Checks one sensor's `when-changed` patterns.
fn check_globs(sensor: &SensorSpec) -> (r: Result<(), ConfigError>)
    ensures
        match glob_fault(sensor@) {
            Some(f) => r matches Err(e) && fault_of(e) == f,
            None => r is Ok,
        },
{
    let ghost f = bad_pattern_fn();
    let ghost pats = string_views(sensor.when_changed@);
    let mut i: usize = 0;
    while i < sensor.when_changed.len()
        invariant
            i <= sensor.when_changed.len(),
            pats == string_views(sensor.when_changed@),
            first_some(pats.take(i as int), f) is None,
            forall|j: int| 0 <= j < i ==> #[trigger] glob_compiles(sensor.when_changed@[j]@, true),
            f == bad_pattern_fn(),
        decreases sensor.when_changed.len() - i,
    {
        proof {
            lemma_first_some_step(pats, f, i as int);
        }
        if !compile_glob(sensor.when_changed[i].as_str(), true) {
            proof {
                lemma_first_some_prefix(pats, f, i + 1);
            }
            return Err(ConfigError::InvalidPattern(sensor.name.clone(), sensor.when_changed[i].clone()));
        }
        i = i + 1;
    }
    proof {
        assert(pats.take(i as int) =~= pats);
    }
    if sensor.when_changed.len() > 0 && !build_glob_set(sensor.when_changed.as_slice(), true) {
        return Err(ConfigError::UnusablePatterns(sensor.name.clone()));
    }
    Ok(())
}

/// Checks one signal set's name and sensor names against `known`.
fn check_set(set: &String, names: &Vec<String>, known: &Vec<String>) -> (r: Result<(), ConfigError>)
    ensures
        match set_fault((set@, string_views(names@)), string_views(known@)) {
            Some(f) => r matches Err(e) && fault_of(e) == f,
            None => r is Ok,
        },
{
    if !is_valid_set_name(set.as_str()) {
        return Err(ConfigError::InvalidSetName(set.clone()));
    }
    let ghost nv = string_views(names@);
    let ghost kv = string_views(known@);
    let mut i: usize = 0;
    while i < names.len()
        invariant
            i <= names.len(),
            nv == string_views(names@),
            kv == string_views(known@),
            valid_set_name(set@),
            names_fault(set@, nv.take(i as int), kv) is None,
        decreases names.len() - i,
    {
        proof {
            assert(nv.take(i + 1).drop_last() =~= nv.take(i as int));
            assert(nv.take(i + 1).last() == nv[i as int]);
        }
        let seen = list_has_before(names.as_slice(), i, names[i].as_str());
        if seen {
            proof {
                assert(names_fault(set@, nv.take(i + 1), kv) == Some(ConfigFault::DuplicateSensor(set@, nv[i as int])));
                lemma_names_fault_prefix(set@, nv, kv, i + 1);
            }
            return Err(ConfigError::DuplicateSensor(set.clone(), names[i].clone()));
        }
        if !list_has(known.as_slice(), names[i].as_str()) {
            proof {
                assert(names_fault(set@, nv.take(i + 1), kv) == Some(ConfigFault::UnknownSensor(set@, nv[i as int])));
                lemma_names_fault_prefix(set@, nv, kv, i + 1);
            }
            return Err(ConfigError::UnknownSensor(set.clone(), names[i].clone()));
        }
        i = i + 1;
    }
    proof {
        assert(nv.take(i as int) =~= nv);
    }
    Ok(())
}

proof fn lemma_names_fault_prefix(set: Seq<char>, names: Seq<Seq<char>>, known: Seq<Seq<char>>, k: int)
    requires
        0 <= k <= names.len(),
        names_fault(set, names.take(k), known) is Some,
    ensures
        names_fault(set, names, known) == names_fault(set, names.take(k), known),
    decreases names.len() - k,
{
    if k < names.len() {
        assert(names.take(k + 1).drop_last() =~= names.take(k));
        lemma_names_fault_prefix(set, names, known, k + 1);
    } else {
        assert(names.take(k) =~= names);
    }
}

impl Config {
    /// The configuration as plain values: language, signal sets, sensors.
    pub open spec fn parts(&self) -> (Option<Seq<char>>, Seq<SetView>, Seq<SensorView>) {
        (opt_str(self.language), self.signal_sets@, sensor_views(self.sensors@))
    }

    /// Returns the effective sensor list: configured, the generic pack's
    /// empty list, or the built-in Rust pack.
    pub fn effective_sensors(&self) -> (v: Vec<SensorSpec>)
        ensures
            sensor_views(v@) == effective_views(opt_str(self.language), sensor_views(self.sensors@)),
    {
        if self.sensors.len() > 0 {
            return copy_sensors(&self.sensors);
        }
        let generic = match &self.language {
            Some(l) => str_eq(l.as_str(), "generic"),
            None => false,
        };
        if generic {
            let v: Vec<SensorSpec> = Vec::new();
            proof {
                assert(sensor_views(v@) =~= Seq::<SensorView>::empty());
            }
            return v;
        }
        rust_pack()
    }

    /// Names of the effective sensors, in order.
    pub fn sensor_names(&self) -> (names: Vec<String>)
        ensures
            string_views(names@) == view_names(effective_views(opt_str(self.language), sensor_views(self.sensors@))),
    {
        let sensors = self.effective_sensors();
        let mut names: Vec<String> = Vec::new();
        let mut i: usize = 0;
        while i < sensors.len()
            invariant
                i <= sensors.len(),
                string_views(names@) == view_names(sensor_views(sensors@)).take(i as int),
            decreases sensors.len() - i,
        {
            let ghost before = names@;
            names.push(sensors[i].name.clone());
            proof {
                assert(string_views(names@) =~= string_views(before).push(sensors@[i as int].name@));
                assert(view_names(sensor_views(sensors@)).take(i + 1) =~= view_names(sensor_views(sensors@)).take(i as int).push(sensors@[i as int].name@));
            }
            i = i + 1;
        }
        proof {
            assert(view_names(sensor_views(sensors@)).take(i as int) =~= view_names(sensor_views(sensors@)));
        }
        names
    }

    /// Rejects unsupported language packs, `when-changed` patterns that do
    /// not compile, malformed signal-set names, duplicate entries in a set,
    /// and sets naming sensors that are not configured; the first fault in
    /// that order is reported.
    pub fn validate(&self) -> (r: Result<(), ConfigError>)
        ensures
            match config_fault(opt_str(self.language), self.signal_sets@, sensor_views(self.sensors@)) {
                Some(f) => r matches Err(e) && fault_of(e) == f,
                None => r is Ok,
            },
    {
        if let Some(language) = &self.language {
            if !(str_eq(language.as_str(), "rust") || str_eq(language.as_str(), "generic")) {
                return Err(ConfigError::UnsupportedLanguage(language.clone()));
            }
        }
        let known = self.sensor_names();
        let ghost sv = sensor_views(self.sensors@);
        let ghost gf = glob_fault_fn();
        let mut i: usize = 0;
        while i < self.sensors.len()
            invariant
                i <= self.sensors.len(),
                sv == sensor_views(self.sensors@),
                gf == glob_fault_fn(),
                match opt_str(self.language) {
                    Some(l) => supported_language(l),
                    None => true,
                },
                first_some(sv.take(i as int), gf) is None,
            decreases self.sensors.len() - i,
        {
            proof {
                lemma_first_some_step(sv, gf, i as int);
            }
            match check_globs(&self.sensors[i]) {
                Err(e) => {
                    proof {
                        lemma_first_some_prefix(sv, gf, i + 1);
                    }
                    return Err(e);
                },
                Ok(()) => {},
            }
            i = i + 1;
        }
        proof {
            assert(sv.take(i as int) =~= sv);
        }
        let ghost kv = string_views(known@);
        let ghost sets = self.signal_sets@;
        let ghost sf = set_fault_fn(kv);
        let mut j: usize = 0;
        while j < self.signal_sets.len()
            invariant
                j <= sets.len(),
                sets == self.signal_sets@,
                kv == string_views(known@),
                kv == view_names(effective_views(opt_str(self.language), sensor_views(self.sensors@))),
                first_some(sensor_views(self.sensors@), glob_fault_fn()) is None,
                match opt_str(self.language) {
                    Some(l) => supported_language(l),
                    None => true,
                },
                sf == set_fault_fn(kv),
                first_some(sets.take(j as int), sf) is None,
            decreases sets.len() - j,
        {
            proof {
                lemma_first_some_step(sets, sf, j as int);
            }
            let (name, names) = self.signal_sets.entry(j);
            match check_set(name, names, &known) {
                Err(e) => {
                    proof {
                        lemma_first_some_prefix(sets, sf, j + 1);
                    }
                    return Err(e);
                },
                Ok(()) => {},
            }
            j = j + 1;
        }
        proof {
            assert(sets.take(j as int) =~= sets);
        }
        Ok(())
    }
}

/// Returns the built-in Rust configuration: the Rust pack, `fmt` and `loc`
/// on pre-commit, the full suite on pre-push, and the `feedback`
/// (fmt, check, clippy), `verification` and `release` (every sensor) sets.
pub fn rust_default() -> (cfg: Config)
    ensures
        cfg.language is None,
        string_views(cfg.hooks.pre_commit@) == seq!["fmt"@, "loc"@],
        cfg.hooks.pre_push@.len() == 0,
        sensor_views(cfg.sensors@) == rust_pack_views(),
        cfg.signal_sets.wf(),
        cfg.signal_sets@ == seq![
            ("feedback"@, seq!["fmt"@, "check"@, "clippy"@]),
            ("release"@, rust_pack_names()),
            ("verification"@, rust_pack_names()),
        ],
{
    let sensors = rust_pack();
    proof {
        assert(sensor_views(sensors@).len() == 8);
    }
    let mut names: Vec<String> = Vec::new();
    let mut i: usize = 0;
    while i < sensors.len()
        invariant
            i <= sensors.len(),
            sensor_views(sensors@) == rust_pack_views(),
            sensors.len() == 8,
            string_views(names@) == rust_pack_names().take(i as int),
        decreases sensors.len() - i,
    {
        let ghost before = names@;
        proof {
            assert(sensor_views(sensors@)[i as int] == sensors@[i as int]@);
            assert(rust_pack_views()[i as int].0 == rust_pack_names()[i as int]);
        }
        names.push(sensors[i].name.clone());
        proof {
            assert(sensor_views(sensors@)[i as int] == rust_pack_views()[i as int]);
            assert(string_views(names@) =~= string_views(before).push(rust_pack_names()[i as int]));
            assert(rust_pack_names().take(i + 1) =~= rust_pack_names().take(i as int).push(rust_pack_names()[i as int]));
        }
        i = i + 1;
    }
    proof {
        assert(rust_pack_names().take(8) =~= rust_pack_names());
    }
    let names2 = copy_strings(&names);
    let mut feedback: Vec<String> = Vec::new();
    feedback.push(crate::text::owned("fmt"));
    feedback.push(crate::text::owned("check"));
    feedback.push(crate::text::owned("clippy"));
    let mut sets = SignalSets::new();
    let ghost fv = string_views(feedback@);
    proof {
        assert(fv =~= seq!["fmt"@, "check"@, "clippy"@]);
    }
    sets.insert(crate::text::owned("feedback"), feedback);
    sets.insert(crate::text::owned("verification"), names);
    sets.insert(crate::text::owned("release"), names2);
    proof {
        reveal_strlit("feedback");
        reveal_strlit("verification");
        reveal_strlit("release");
        let e = Seq::<SetView>::empty();
        let s1 = assoc_insert(e, "feedback"@, fv);
        assert(s1 =~= seq![("feedback"@, fv)]);
        assert(text_lt("feedback"@, "verification"@));
        let s2 = assoc_insert(s1, "verification"@, rust_pack_names());
        assert(s2 =~= seq![("feedback"@, fv), ("verification"@, rust_pack_names())]) by {
            assert(!text_lt("verification"@, "feedback"@));
            assert("verification"@ != "feedback"@);
            assert(assoc_insert(seq![("feedback"@, fv)].drop_first(), "verification"@, rust_pack_names()) =~= seq![("verification"@, rust_pack_names())]);
        }
        assert(text_lt("feedback"@, "release"@));
        assert(text_lt("release"@, "verification"@));
        let s3 = assoc_insert(s2, "release"@, rust_pack_names());
        assert(s3 =~= seq![("feedback"@, fv), ("release"@, rust_pack_names()), ("verification"@, rust_pack_names())]) by {
            assert(!text_lt("release"@, "feedback"@));
            assert("release"@ != "feedback"@);
            let t = s2.drop_first();
            assert(t =~= seq![("verification"@, rust_pack_names())]);
            assert(assoc_insert(t, "release"@, rust_pack_names()) =~= seq![("release"@, rust_pack_names()), ("verification"@, rust_pack_names())]);
        }
    }
    let mut pre_commit: Vec<String> = Vec::new();
    pre_commit.push(crate::text::owned("fmt"));
    pre_commit.push(crate::text::owned("loc"));
    proof {
        assert(string_views(pre_commit@) =~= seq!["fmt"@, "loc"@]);
    }
    Config {
        language: None,
        hooks: HooksConfig { pre_commit, pre_push: Vec::new() },
        signal_sets: sets,
        sensors,
    }
}

} // verus!
