//! Artifact glob resolution for evidence: which directories a set of globs
//! needs walked, which files they select, and the sorted, bounded, digested
//! result. The host program walks the tree and reads the files.
use vstd::prelude::*;

use crate::digest::{content_digest, content_digest_of};
use crate::glob::{build_glob_set, compile_glob, glob_compiles, glob_set_builds, glob_set_match, glob_set_matches};
use crate::order::{dedup_by_text, dedup_text, sort_by_keys, stable_sort_of, SortKey};
use crate::text::{
    first_in, find_in, from_chars, slice_range, slice_starts_with, split_by, split_chars, starts_with, string_views,
    to_chars, views,
};

verus! {

/// Maximum artifacts recorded per sensor, bounding evidence size.
pub const MAX_ARTIFACTS: usize = 200;

/// One digested artifact file, repository-relative.
#[derive(Debug, PartialEq, Eq)]
pub struct EvidenceArtifact {
    /// Repository-relative path (`/`-separated).
    pub path: String,
    /// Hex SHA-256 of the file bytes, or `"unreadable"`.
    pub sha256: String,
}

/// The glob wildcard characters.
pub open spec fn wildcards() -> Seq<char> {
    seq!['*', '?', '[', '{', '!']
}

/// The last index of `c` in `s`, if any.
pub open spec fn last_index_of(s: Seq<char>, c: char) -> Option<int>
    decreases s.len(),
{
    if s.len() == 0 {
        None
    } else if s.last() == c {
        Some(s.len() - 1)
    } else {
        last_index_of(s.drop_last(), c)
    }
}

/// The directory portion of a glob before its first wildcard character:
/// the text before the last `/` that precedes the first wildcard, or
/// nothing.
pub open spec fn literal_prefix_of(pattern: Seq<char>) -> Seq<char> {
    let head = match first_in(pattern, wildcards()) {
        Some(w) => pattern.take(w),
        None => pattern,
    };
    match last_index_of(head, '/') {
        Some(i) => head.take(i),
        None => seq![],
    }
}

/// The directory portion of a glob before its first wildcard character.
pub fn literal_prefix(pattern: &str) -> (p: String)
    ensures
        p@ == literal_prefix_of(pattern@),
{
    let cs = to_chars(pattern);
    let set = vec!['*', '?', '[', '{', '!'];
    proof {
        assert(set@ =~= wildcards());
        assert(cs@.skip(0) =~= cs@);
        crate::text::lemma_first_in(cs@, wildcards());
    }
    let end = match find_in(&cs, 0, &set) {
        Some(w) => w,
        None => cs.len(),
    };
    let head = slice_range(&cs, 0, end);
    proof {
        assert(head@ =~= match first_in(cs@, wildcards()) {
            Some(w) => cs@.take(w),
            None => cs@,
        });
    }
    let mut i: usize = head.len();
    proof {
        assert(head@.take(head.len() as int) =~= head@);
    }
    while i > 0 && head[i - 1] != '/'
        invariant
            i <= head.len(),
            last_index_of(head@, '/') == last_index_of(head@.take(i as int), '/'),
        decreases i,
    {
        proof {
            assert(head@.take(i as int).drop_last() =~= head@.take(i - 1));
        }
        i = i - 1;
    }
    proof {
        assert(head@.take(head.len() as int) =~= head@);
    }
    if i == 0 {
        proof {
            assert(head@.take(0) =~= Seq::<char>::empty());
        }
        return String::new();
    }
    proof {
        assert(head@.take(i as int).last() == '/');
    }
    let out = slice_range(&head, 0, i - 1);
    proof {
        assert(out@ =~= head@.take(i - 1));
    }
    from_chars(&out)
}

/// The directories to walk for `patterns`: each pattern's literal prefix,
/// sorted, each once (an empty prefix walks the root).
pub open spec fn prefix_key_fn() -> spec_fn(String) -> (int, Seq<char>) {
    |s: String| (0int, s@)
}

/// Sort keys for texts.
fn text_keys(v: &Vec<String>) -> (keys: Vec<SortKey>)
    ensures
        keys.len() == v.len(),
        forall|k: int| 0 <= k < v.len() ==> #[trigger] keys@[k].view_key() == prefix_key_fn()(v@[k]),
{
    let mut keys: Vec<SortKey> = Vec::new();
    let mut j: usize = 0;
    while j < v.len()
        invariant
            j <= v.len(),
            keys.len() == j,
            forall|k: int| 0 <= k < j ==> #[trigger] keys@[k].view_key() == prefix_key_fn()(v@[k]),
        decreases v.len() - j,
    {
        keys.push(SortKey { num: 0, text: to_chars(v[j].as_str()) });
        j = j + 1;
    }
    keys
}

/// Literal directory prefixes of `patterns`, sorted and deduplicated.
pub fn prefixes(patterns: &[String]) -> (out: Vec<String>)
    ensures
        exists|all: Seq<String>, sorted: Seq<String>, p: Seq<int>|
            #[trigger] stable_sort_of(sorted, all, p, prefix_key_fn()) && string_views(all)
                == string_views(patterns@).map_values(|q: Seq<char>| literal_prefix_of(q)) && out@ == dedup_text(
                None,
                sorted,
                prefix_key_fn(),
            ),
{
    let mut all: Vec<String> = Vec::new();
    let mut i: usize = 0;
    while i < patterns.len()
        invariant
            i <= patterns.len(),
            string_views(all@) == string_views(patterns@).take(i as int).map_values(|q: Seq<char>| literal_prefix_of(q)),
        decreases patterns.len() - i,
    {
        let ghost before = all@;
        let p = literal_prefix(patterns[i].as_str());
        all.push(p);
        proof {
            assert(string_views(all@) =~= string_views(before).push(literal_prefix_of(patterns@[i as int]@)));
            assert(string_views(patterns@).take(i + 1).map_values(|q: Seq<char>| literal_prefix_of(q)) =~= string_views(
                patterns@,
            ).take(i as int).map_values(|q: Seq<char>| literal_prefix_of(q)).push(literal_prefix_of(patterns@[i as int]@)));
        }
        i = i + 1;
    }
    proof {
        assert(string_views(patterns@).take(i as int) =~= string_views(patterns@));
    }
    let keys = text_keys(&all);
    let ghost all_items = all@;
    let (sorted, Ghost(p)) = sort_by_keys(all, keys, Ghost(prefix_key_fn()));
    let ghost sorted_items = sorted@;
    let keys2 = text_keys(&sorted);
    let out = dedup_by_text(sorted, keys2, Ghost(prefix_key_fn()));
    proof {
        assert(stable_sort_of(sorted_items, all_items, p, prefix_key_fn()));
    }
    out
}

/// The patterns that compile as default-option globs.
pub open spec fn compiling(patterns: Seq<Seq<char>>) -> Seq<Seq<char>>
    decreases patterns.len(),
{
    if patterns.len() == 0 {
        seq![]
    } else {
        let r = compiling(patterns.drop_last());
        if glob_compiles(patterns.last(), false) {
            r.push(patterns.last())
        } else {
            r
        }
    }
}

/// Whether the artifact globs select anything at all: some pattern
/// compiles, and the compiling ones build into a set.
pub open spec fn set_usable(patterns: Seq<Seq<char>>) -> bool {
    compiling(patterns).len() > 0 && glob_set_builds(compiling(patterns), false)
}

/// The compiling patterns, in order.
fn compiling_patterns(patterns: &[String]) -> (out: Vec<String>)
    ensures
        string_views(out@) == compiling(string_views(patterns@)),
        forall|i: int| 0 <= i < out.len() ==> #[trigger] glob_compiles(out@[i]@, false),
{
    let ghost pv = string_views(patterns@);
    let mut out: Vec<String> = Vec::new();
    let mut i: usize = 0;
    while i < patterns.len()
        invariant
            i <= patterns.len(),
            pv == string_views(patterns@),
            string_views(out@) == compiling(pv.take(i as int)),
            forall|k: int| 0 <= k < out.len() ==> #[trigger] glob_compiles(out@[k]@, false),
        decreases patterns.len() - i,
    {
        proof {
            assert(pv.take(i + 1).drop_last() =~= pv.take(i as int));
            assert(pv.take(i + 1).last() == patterns@[i as int]@);
        }
        let ghost before = out@;
        if compile_glob(patterns[i].as_str(), false) {
            out.push(patterns[i].clone());
            proof {
                assert(string_views(out@) =~= string_views(before).push(patterns@[i as int]@));
            }
        }
        i = i + 1;
    }
    proof {
        assert(pv.take(i as int) =~= pv);
    }
    out
}

/// The directories to walk for `patterns`, or `None` when no glob set can
/// be built from them (nothing is resolved then).
pub fn walk_plan(patterns: &[String]) -> (r: Option<Vec<String>>)
    ensures
        r is Some <==> set_usable(string_views(patterns@)),
        r matches Some(dirs) ==> exists|all: Seq<String>, sorted: Seq<String>, p: Seq<int>|
            #[trigger] stable_sort_of(sorted, all, p, prefix_key_fn()) && string_views(all)
                == string_views(patterns@).map_values(|q: Seq<char>| literal_prefix_of(q)) && dirs@ == dedup_text(
                None,
                sorted,
                prefix_key_fn(),
            ),
{
    let usable = compiling_patterns(patterns);
    if usable.len() == 0 {
        return None;
    }
    if !build_glob_set(usable.as_slice(), false) {
        return None;
    }
    Some(prefixes(patterns))
}

/// Whether a repository-relative path is selected by the artifact globs:
/// the glob set of the compiling patterns builds and matches it.
pub open spec fn artifact_selected(patterns: Seq<Seq<char>>, path: Seq<char>) -> bool {
    set_usable(patterns) && glob_set_matches(compiling(patterns), false, path)
}

/// Whether a repository-relative path is selected by the artifact globs.
pub fn artifact_matches(patterns: &[String], path: &str) -> (b: bool)
    ensures
        b == artifact_selected(string_views(patterns@), path@),
{
    let usable = compiling_patterns(patterns);
    if usable.len() == 0 {
        return false;
    }
    match glob_set_match(usable.as_slice(), false, path) {
        Some(hit) => hit,
        None => false,
    }
}

/// The digest recorded for a file: hex SHA-256 of its bytes, or
/// `unreadable` when it could not be read.
pub fn file_digest(contents: Option<&[u8]>) -> (s: String)
    ensures
        match contents {
            Some(b) => s@ == content_digest_of(Some(b@)),
            None => s@ == "unreadable"@,
        },
{
    match contents {
        Some(b) => content_digest(Some(b)),
        None => crate::text::owned("unreadable"),
    }
}

/// Artifacts ordered by path.
pub open spec fn artifact_key_fn() -> spec_fn(EvidenceArtifact) -> (int, Seq<char>) {
    |a: EvidenceArtifact| (0int, a.path@)
}

/// Sort keys for artifacts.
fn artifact_keys(v: &Vec<EvidenceArtifact>) -> (keys: Vec<SortKey>)
    ensures
        keys.len() == v.len(),
        forall|k: int| 0 <= k < v.len() ==> #[trigger] keys@[k].view_key() == artifact_key_fn()(v@[k]),
{
    let mut keys: Vec<SortKey> = Vec::new();
    let mut j: usize = 0;
    while j < v.len()
        invariant
            j <= v.len(),
            keys.len() == j,
            forall|k: int| 0 <= k < j ==> #[trigger] keys@[k].view_key() == artifact_key_fn()(v@[k]),
        decreases v.len() - j,
    {
        keys.push(SortKey { num: 0, text: to_chars(v[j].path.as_str()) });
        j = j + 1;
    }
    keys
}

/// The recorded artifacts: stably sorted by path, each path once, at most
/// [`MAX_ARTIFACTS`].
pub fn finalize_artifacts(found: Vec<EvidenceArtifact>) -> (out: Vec<EvidenceArtifact>)
    ensures
        exists|sorted: Seq<EvidenceArtifact>, p: Seq<int>|
            #[trigger] stable_sort_of(sorted, found@, p, artifact_key_fn()) && out@ == (if dedup_text(
                None,
                sorted,
                artifact_key_fn(),
            ).len() > 200 {
                dedup_text(None, sorted, artifact_key_fn()).take(200)
            } else {
                dedup_text(None, sorted, artifact_key_fn())
            }),
{
    let ghost items = found@;
    let keys = artifact_keys(&found);
    let (sorted, Ghost(p)) = sort_by_keys(found, keys, Ghost(artifact_key_fn()));
    let ghost sorted_items = sorted@;
    let keys2 = artifact_keys(&sorted);
    let mut out = dedup_by_text(sorted, keys2, Ghost(artifact_key_fn()));
    let ghost d = out@;
    out.truncate(MAX_ARTIFACTS);
    proof {
        assert(stable_sort_of(sorted_items, items, p, artifact_key_fn()));
        if d.len() > 200 {
            assert(out@ =~= d.take(200));
        } else {
            assert(out@ =~= d);
        }
    }
    out
}

/// An entry found while walking one of the planned directories: the
/// directory the walk started from (`""` for the root), the entry's
/// repository-relative path (`/`-separated), whether it is a regular file,
/// and its bytes, when readable.
pub struct WalkedFile {
    pub start: String,
    pub path: String,
    pub regular: bool,
    pub contents: Option<Vec<u8>>,
}

/// The directory the walk never enters.
pub open spec fn git_dir_name() -> Seq<char> {
    seq!['.', 'g', 'i', 't']
}

/// Whether the walk descends into a directory named `name`: every
/// directory but `.git`.
pub fn walk_descends(name: &str) -> (b: bool)
    ensures
        b == (name@ != git_dir_name()),
{
    let cs = to_chars(name);
    let git = vec!['.', 'g', 'i', 't'];
    proof {
        assert(git@ =~= git_dir_name());
    }
    !crate::order::chars_eq(&cs, &git)
}

/// Whether the relative path `rest` passes through a `.git` directory: some
/// component before the last is `.git`.
pub open spec fn under_git_dir(rest: Seq<char>) -> bool {
    let parts = split_by(rest, seq!['/']);
    exists|k: int| 0 <= k < parts.len() - 1 && parts[k] == git_dir_name()
}

/// Whether the character path `cs` passes through a `.git` directory.
fn chars_under_git_dir(cs: &[char]) -> (b: bool)
    ensures
        b == under_git_dir(cs@),
{
    let sep = vec!['/'];
    proof {
        assert(sep@ =~= seq!['/']);
    }
    let parts = split_chars(cs, &sep);
    let git = vec!['.', 'g', 'i', 't'];
    proof {
        assert(git@ =~= git_dir_name());
    }
    let n = parts.len();
    if n == 0 {
        return false;
    }
    let mut i: usize = 0;
    while i < n - 1
        invariant
            0 < n == parts.len(),
            i <= n - 1,
            views(parts@) == split_by(cs@, seq!['/']),
            git@ == git_dir_name(),
            forall|k: int| 0 <= k < i ==> views(parts@)[k] != git_dir_name(),
        decreases n - 1 - i,
    {
        proof {
            assert(views(parts@)[i as int] == parts@[i as int]@);
        }
        if crate::order::chars_eq(&parts[i], &git) {
            return true;
        }
        i = i + 1;
    }
    false
}

/// Whether the relative path `rest` passes through a `.git` directory.
pub fn is_under_git_dir(rest: &str) -> (b: bool)
    ensures
        b == under_git_dir(rest@),
{
    let cs = to_chars(rest);
    chars_under_git_dir(&cs)
}

/// The part of `path` below the walk's start directory `start`, when
/// `path` lies there.
pub open spec fn below_start(start: Seq<char>, path: Seq<char>) -> Option<Seq<char>> {
    if start.len() == 0 {
        Some(path)
    } else if starts_with(path, start.push('/')) {
        Some(path.skip(start.len() as int + 1))
    } else {
        None
    }
}

/// Whether a walked entry may become an artifact: a regular file below its
/// start directory, reached without passing through a `.git` directory.
pub open spec fn walk_keeps(f: WalkedFile) -> bool {
    f.regular && match below_start(f.start@, f.path@) {
        Some(rest) => !under_git_dir(rest),
        None => false,
    }
}

/// Whether a walked entry may become an artifact.
pub fn walk_keeps_entry(f: &WalkedFile) -> (b: bool)
    ensures
        b == walk_keeps(*f),
{
    if !f.regular {
        return false;
    }
    let pc = to_chars(f.path.as_str());
    let mut pre = to_chars(f.start.as_str());
    if pre.len() == 0 {
        return !chars_under_git_dir(&pc);
    }
    let ghost sv = pre@;
    pre.push('/');
    if !slice_starts_with(&pc, &pre) {
        return false;
    }
    let rest = slice_range(&pc, pre.len(), pc.len());
    proof {
        assert(rest@ =~= pc@.skip(sv.len() as int + 1));
    }
    !chars_under_git_dir(&rest)
}

/// The artifacts the walked entries give: each entry [`walk_keeps`] that a
/// compiling glob selects, with its digest, in walk order.
pub open spec fn selected_artifacts(patterns: Seq<Seq<char>>, files: Seq<WalkedFile>) -> Seq<(Seq<char>, Seq<char>)>
    decreases files.len(),
{
    if files.len() == 0 {
        seq![]
    } else {
        let r = selected_artifacts(patterns, files.drop_last());
        let f = files.last();
        if walk_keeps(f) && artifact_selected(patterns, f.path@) {
            r.push((f.path@, match f.contents {
                Some(b) => content_digest_of(Some(b@)),
                None => "unreadable"@,
            }))
        } else {
            r
        }
    }
}

/// Whether `path` is the path of a walked entry that [`walk_keeps`] and
/// that the globs select.
pub open spec fn kept_and_selected(patterns: Seq<Seq<char>>, walked: Seq<WalkedFile>, path: Seq<char>) -> bool {
    exists|j: int|
        0 <= j < walked.len() && walk_keeps(walked[j]) && artifact_selected(patterns, walked[j].path@)
            && #[trigger] walked[j].path@ == path
}

/// Each artifact the walked entries give is the path of an entry that is
/// kept and selected.
proof fn lemma_selected_from_walk(patterns: Seq<Seq<char>>, files: Seq<WalkedFile>)
    ensures
        forall|k: int|
            0 <= k < selected_artifacts(patterns, files).len() ==> kept_and_selected(
                patterns,
                files,
                #[trigger] selected_artifacts(patterns, files)[k].0,
            ),
    decreases files.len(),
{
    if files.len() > 0 {
        let init = files.drop_last();
        lemma_selected_from_walk(patterns, init);
        let sel = selected_artifacts(patterns, files);
        let r = selected_artifacts(patterns, init);
        assert forall|k: int| 0 <= k < sel.len() implies kept_and_selected(patterns, files, #[trigger] sel[k].0) by {
            if k < r.len() {
                assert(sel[k] == r[k]);
                assert(kept_and_selected(patterns, init, r[k].0));
                let j = choose|j: int|
                    0 <= j < init.len() && walk_keeps(init[j]) && artifact_selected(patterns, init[j].path@)
                        && #[trigger] init[j].path@ == r[k].0;
                assert(files[j] == init[j]);
            } else {
                assert(files[files.len() - 1].path@ == sel[k].0);
            }
        }
    }
}

/// The recorded artifacts, taken from a stable sort of those the walk gave,
/// are each the path of a kept, selected entry.
proof fn lemma_recorded_from_walk(
    patterns: Seq<Seq<char>>,
    walked: Seq<WalkedFile>,
    found: Seq<EvidenceArtifact>,
    sorted: Seq<EvidenceArtifact>,
    p: Seq<int>,
    out: Seq<EvidenceArtifact>,
)
    requires
        stable_sort_of(sorted, found, p, artifact_key_fn()),
        artifact_views(found) == selected_artifacts(patterns, walked),
        out == (if dedup_text(None, sorted, artifact_key_fn()).len() > 200 {
            dedup_text(None, sorted, artifact_key_fn()).take(200)
        } else {
            dedup_text(None, sorted, artifact_key_fn())
        }),
    ensures
        forall|k: int| 0 <= k < out.len() ==> kept_and_selected(patterns, walked, #[trigger] out[k].path@),
{
    let d = dedup_text(None, sorted, artifact_key_fn());
    crate::order::lemma_dedup_text_from(None, sorted, artifact_key_fn());
    lemma_selected_from_walk(patterns, walked);
    assert forall|k: int| 0 <= k < out.len() implies kept_and_selected(patterns, walked, #[trigger] out[k].path@) by {
        assert(out[k] == d[k]);
        let i = choose|i: int| 0 <= i < sorted.len() && #[trigger] d[k] == sorted[i];
        assert(sorted[i] == found[p[i]]);
        let m = p[i];
        assert(artifact_views(found)[m] == (found[m].path@, found[m].sha256@));
        assert(selected_artifacts(patterns, walked)[m].0 == found[m].path@);
    }
}

/// The views of artifacts.
pub open spec fn artifact_views(v: Seq<EvidenceArtifact>) -> Seq<(Seq<char>, Seq<char>)> {
    v.map_values(|a: EvidenceArtifact| (a.path@, a.sha256@))
}

/// Expands repository-relative globs to sorted, digested artifact files,
/// given the entries found under the directories [`walk_plan`] names (the
/// walk enters no directory [`walk_descends`] refuses). Only the entries
/// [`walk_keeps`] are kept: regular files below their start directory,
/// reached without passing through a `.git` directory. Nothing is resolved
/// when no glob set can be built.
pub fn resolve(patterns: &[String], walked: Vec<WalkedFile>) -> (out: Vec<EvidenceArtifact>)
    ensures
        !set_usable(string_views(patterns@)) ==> out.len() == 0,
        set_usable(string_views(patterns@)) ==> exists|found: Seq<EvidenceArtifact>, sorted: Seq<EvidenceArtifact>, p: Seq<int>|
            #[trigger] stable_sort_of(sorted, found, p, artifact_key_fn()) && artifact_views(found)
                == selected_artifacts(string_views(patterns@), walked@) && out@ == (if dedup_text(
                None,
                sorted,
                artifact_key_fn(),
            ).len() > 200 {
                dedup_text(None, sorted, artifact_key_fn()).take(200)
            } else {
                dedup_text(None, sorted, artifact_key_fn())
            }),
        forall|k: int|
            0 <= k < out.len() ==> kept_and_selected(string_views(patterns@), walked@, #[trigger] out@[k].path@),
{
    if walk_plan(patterns).is_none() {
        return Vec::new();
    }
    let ghost pv = string_views(patterns@);
    let mut found: Vec<EvidenceArtifact> = Vec::new();
    let mut i: usize = 0;
    while i < walked.len()
        invariant
            i <= walked.len(),
            pv == string_views(patterns@),
            artifact_views(found@) == selected_artifacts(pv, walked@.take(i as int)),
        decreases walked.len() - i,
    {
        proof {
            assert(walked@.take(i + 1).drop_last() =~= walked@.take(i as int));
            assert(walked@.take(i + 1).last() == walked@[i as int]);
        }
        let f = &walked[i];
        if walk_keeps_entry(f) && artifact_matches(patterns, f.path.as_str()) {
            let digest = match &f.contents {
                Some(b) => file_digest(Some(b.as_slice())),
                None => file_digest(None),
            };
            let ghost before = found@;
            found.push(EvidenceArtifact { path: f.path.clone(), sha256: digest });
            proof {
                assert(artifact_views(found@) =~= artifact_views(before).push((f.path@, digest@)));
            }
        }
        i = i + 1;
    }
    proof {
        assert(walked@.take(i as int) =~= walked@);
    }
    let ghost found_items = found@;
    let out = finalize_artifacts(found);
    proof {
        let (sorted, p) = choose|sorted: Seq<EvidenceArtifact>, p: Seq<int>|
            #[trigger] stable_sort_of(sorted, found_items, p, artifact_key_fn()) && out@ == (if dedup_text(
                None,
                sorted,
                artifact_key_fn(),
            ).len() > 200 {
                dedup_text(None, sorted, artifact_key_fn()).take(200)
            } else {
                dedup_text(None, sorted, artifact_key_fn())
            });
        lemma_recorded_from_walk(pv, walked@, found_items, sorted, p, out@);
    }
    out
}

} // verus!
