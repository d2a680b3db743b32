//! Glob matching through `globset`.
//!
//! What a glob accepts and matches is `globset`'s own behaviour: it is named
//! here, not restated.
use vstd::prelude::*;

use globset::{GlobBuilder, GlobSetBuilder};

use crate::text::string_views;

verus! {

/// Whether `GlobBuilder::new(pattern).literal_separator(sep).build()` succeeds.
pub uninterp spec fn glob_compiles(pattern: Seq<char>, literal_separator: bool) -> bool;

/// Whether a `GlobSetBuilder` holding the globs compiled from `patterns` builds.
pub uninterp spec fn glob_set_builds(patterns: Seq<Seq<char>>, literal_separator: bool) -> bool;

/// Whether the glob set built from `patterns` matches `path`
/// (`GlobSet::is_match`: some glob of the set matches it).
pub uninterp spec fn glob_set_matches(patterns: Seq<Seq<char>>, literal_separator: bool, path: Seq<char>) -> bool;

/// `globset::GlobBuilder::build`: whether `pattern` compiles as a glob, with
/// `*` kept from crossing `/` when `literal_separator` is set.
#[verifier::external_body]
pub(crate) fn compile_glob(pattern: &str, literal_separator: bool) -> (ok: bool)
    ensures
        ok == glob_compiles(pattern@, literal_separator),
{
    GlobBuilder::new(pattern).literal_separator(literal_separator).build().is_ok()
}

/// `globset::GlobSetBuilder::build` over the globs of `patterns`, each of
/// which compiles: whether the set builds.
#[verifier::external_body]
pub(crate) fn build_glob_set(patterns: &[String], literal_separator: bool) -> (ok: bool)
    requires
        forall|i: int| 0 <= i < patterns.len() ==> #[trigger] glob_compiles(patterns@[i]@, literal_separator),
    ensures
        ok == glob_set_builds(string_views(patterns@), literal_separator),
{
    let mut builder = GlobSetBuilder::new();
    for pattern in patterns {
        if let Ok(glob) = GlobBuilder::new(pattern).literal_separator(literal_separator).build() {
            builder.add(glob);
        }
    }
    builder.build().is_ok()
}

/// `globset::GlobSet::is_match` on the set built from the globs of
/// `patterns`, each of which compiles: `None` when `GlobSetBuilder::build`
/// fails (its regex compilation is where an oversized or too deeply nested
/// glob is refused), else whether some glob of the set matches `path`.
#[verifier::external_body]
pub(crate) fn glob_set_match(patterns: &[String], literal_separator: bool, path: &str) -> (r: Option<bool>)
    requires
        forall|i: int| 0 <= i < patterns.len() ==> #[trigger] glob_compiles(patterns@[i]@, literal_separator),
    ensures
        r == (if glob_set_builds(string_views(patterns@), literal_separator) {
            Some(glob_set_matches(string_views(patterns@), literal_separator, path@))
        } else {
            None
        }),
{
    let mut builder = GlobSetBuilder::new();
    for pattern in patterns {
        if let Ok(glob) = GlobBuilder::new(pattern).literal_separator(literal_separator).build() {
            builder.add(glob);
        }
    }
    match builder.build() {
        Ok(set) => Some(set.is_match(path)),
        Err(_) => None,
    }
}

} // verus!
