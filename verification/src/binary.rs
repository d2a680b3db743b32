//! Where the `do-harness` executable resolves from: `$DO_HARNESS_BIN`, then
//! `PATH`, then the repo-local Cargo fallback. The host program probes the
//! file system; this module decides from what it found.
use vstd::prelude::*;

use crate::paths::{join_path, joined};
use crate::text::{owned, split_by, split_chars, str_eq, string_views, to_chars, views};

verus! {

/// Where the `do-harness` binary resolves from.
#[derive(Debug, PartialEq, Eq)]
pub enum BinSource {
    /// `$DO_HARNESS_BIN`, verified executable.
    Env(String),
    /// Found on `PATH`.
    Path(String),
    /// The repo-local fallback path.
    Repo(String),
}

/// The path a source names.
pub open spec fn source_path(s: BinSource) -> Seq<char> {
    match s {
        BinSource::Env(p) => p@,
        BinSource::Path(p) => p@,
        BinSource::Repo(p) => p@,
    }
}

/// Whether some `/`-separated component of `path` is `target`.
pub open spec fn has_target_component(path: Seq<char>) -> bool {
    split_by(path, seq!['/']).contains("target"@)
}

/// Checks whether `path` contains a component named `target` (the host
/// program passes the canonical path when it can be resolved).
pub fn is_target_dir_path(path: &str) -> (b: bool)
    ensures
        b == has_target_component(path@),
{
    let cs = to_chars(path);
    let sep = vec!['/'];
    proof {
        assert(sep@ =~= seq!['/']);
    }
    let parts = split_chars(&cs, &sep);
    let target = to_chars("target");
    let mut i: usize = 0;
    while i < parts.len()
        invariant
            i <= parts.len(),
            views(parts@) == split_by(path@, seq!['/']),
            cs@ == path@,
            target@ == "target"@,
            forall|k: int| 0 <= k < i ==> views(parts@)[k] != "target"@,
        decreases parts.len() - i,
    {
        if crate::order::chars_eq(&parts[i], &target) {
            proof {
                assert(views(parts@)[i as int] == parts@[i as int]@);
            }
            return true;
        }
        proof {
            assert(views(parts@)[i as int] == parts@[i as int]@);
        }
        i = i + 1;
    }
    false
}

impl BinSource {
    /// Returns the underlying path for the binary source.
    pub fn path(&self) -> (p: &String)
        ensures
            p@ == source_path(*self),
    {
        match self {
            BinSource::Env(p) => p,
            BinSource::Path(p) => p,
            BinSource::Repo(p) => p,
        }
    }

    /// Whether the resolved path currently exists: an `$DO_HARNESS_BIN` or
    /// `PATH` hit was already checked; the repo fallback exists when
    /// `repo_file_exists` (the host's `is_file` probe) says so.
    pub fn present(&self, repo_file_exists: bool) -> (b: bool)
        ensures
            b == match *self {
                BinSource::Repo(_) => repo_file_exists,
                _ => true,
            },
    {
        match self {
            BinSource::Env(_) | BinSource::Path(_) => true,
            BinSource::Repo(_) => repo_file_exists,
        }
    }

    /// Whether the resolved binary path lives inside a Cargo-managed
    /// `target` directory.
    pub fn is_in_target_dir(&self) -> (b: bool)
        ensures
            b == has_target_component(source_path(*self)),
    {
        is_target_dir_path(self.path().as_str())
    }

    /// How the source is described: `env:`, `path:` or `repo:` and the path.
    pub fn describe(&self) -> (s: String)
        ensures
            s@ == match *self {
                BinSource::Env(p) => "env:"@ + p@,
                BinSource::Path(p) => "path:"@ + p@,
                BinSource::Repo(p) => "repo:"@ + p@,
            },
    {
        match self {
            BinSource::Env(p) => crate::text::concat("env:", p.as_str()),
            BinSource::Path(p) => crate::text::concat("path:", p.as_str()),
            BinSource::Repo(p) => crate::text::concat("repo:", p.as_str()),
        }
    }
}

/// File names the harness binary may carry, most preferred first; the last
/// is Cargo's `target/release` output name (`do-harness.exe` on Windows).
pub open spec fn names_for(windows: bool) -> Seq<Seq<char>> {
    if windows {
        seq!["do-harness"@, "do-harness.exe"@]
    } else {
        seq!["do-harness"@]
    }
}

/// File names the harness binary may carry on the given platform.
pub fn binary_names(windows: bool) -> (names: Vec<&'static str>)
    ensures
        names@.map_values(|n: &'static str| n@) == names_for(windows),
{
    let names = if windows {
        vec!["do-harness", "do-harness.exe"]
    } else {
        vec!["do-harness"]
    };
    proof {
        assert(names@.map_values(|n: &'static str| n@) =~= names_for(windows));
    }
    names
}

/// The views of probe names.
pub open spec fn name_views<'a>(names: Seq<&'a str>) -> Seq<Seq<char>> {
    names.map_values(|n: &'a str| n@)
}

/// The repo-local fallback: `target/release` under the last probe name
/// (`do-harness` when there are none).
pub open spec fn repo_binary_path(root: Seq<char>, names: Seq<Seq<char>>) -> Seq<char> {
    joined(joined(root, "target/release"@), if names.len() > 0 {
        names.last()
    } else {
        "do-harness"@
    })
}

/// Repo-local `target/release` fallback under the platform output name.
pub fn repo_binary(repo_root: &str, names: &[&str]) -> (p: String)
    ensures
        p@ == repo_binary_path(repo_root@, name_views(names@)),
{
    let name = if names.len() > 0 {
        names[names.len() - 1]
    } else {
        "do-harness"
    };
    let dir = join_path(repo_root, "target/release");
    join_path(dir.as_str(), name)
}

/// The `PATH` probes in order: each directory joined with each name, the
/// first name first within a directory.
pub open spec fn probes_of(dirs: Seq<Seq<char>>, names: Seq<Seq<char>>) -> Seq<Seq<char>>
    decreases dirs.len(),
{
    if dirs.len() == 0 {
        seq![]
    } else {
        probes_of(dirs.drop_last(), names) + names.map_values(|n: Seq<char>| joined(dirs.last(), n))
    }
}

/// The candidate paths to probe on `PATH`, in order.
pub fn path_candidates(dirs: &[String], names: &[&str]) -> (c: Vec<String>)
    ensures
        string_views(c@) == probes_of(string_views(dirs@), name_views(names@)),
{
    let ghost dv = string_views(dirs@);
    let ghost nv = name_views(names@);
    let mut c: Vec<String> = Vec::new();
    let mut i: usize = 0;
    while i < dirs.len()
        invariant
            i <= dirs.len(),
            dv == string_views(dirs@),
            nv == name_views(names@),
            string_views(c@) == probes_of(dv.take(i as int), nv),
        decreases dirs.len() - i,
    {
        proof {
            assert(dv.take(i + 1).drop_last() =~= dv.take(i as int));
            assert(dv.take(i + 1).last() == dirs@[i as int]@);
        }
        let ghost start = string_views(c@);
        let mut j: usize = 0;
        while j < names.len()
            invariant
                j <= names.len(),
                i < dirs.len(),
                nv == name_views(names@),
                string_views(c@) == start + nv.take(j as int).map_values(|n: Seq<char>| joined(dirs@[i as int]@, n)),
            decreases names.len() - j,
        {
            let ghost before = c@;
            let p = join_path(dirs[i].as_str(), names[j]);
            c.push(p);
            proof {
                assert(string_views(c@) =~= string_views(before).push(p@));
                assert(nv.take(j + 1).map_values(|n: Seq<char>| joined(dirs@[i as int]@, n)) =~= nv.take(j as int).map_values(
                    |n: Seq<char>| joined(dirs@[i as int]@, n),
                ).push(joined(dirs@[i as int]@, names@[j as int]@)));
            }
            j = j + 1;
        }
        proof {
            assert(nv.take(j as int) =~= nv);
        }
        i = i + 1;
    }
    proof {
        assert(dv.take(i as int) =~= dv);
    }
    c
}

/// Resolves the binary from what the host found: an executable
/// `$DO_HARNESS_BIN` wins; then the first executable `PATH` probe; then the
/// repo-local fallback.
pub fn resolve_binary_with_names(repo_root: &str, env_bin: Option<String>, env_bin_executable: bool, path_hit: Option<String>, names: &[&str]) -> (s: BinSource)
    ensures
        match env_bin {
            Some(b) if env_bin_executable => s == BinSource::Env(b),
            _ => match path_hit {
                Some(p) => s == BinSource::Path(p),
                None => s matches BinSource::Repo(r) && r@ == repo_binary_path(repo_root@, name_views(names@)),
            },
        },
{
    if let Some(bin) = env_bin {
        if env_bin_executable {
            return BinSource::Env(bin);
        }
    }
    if let Some(found) = path_hit {
        return BinSource::Path(found);
    }
    BinSource::Repo(repo_binary(repo_root, names))
}

} // verus!
