//! Working-tree change discovery for `--changed` selection.
//!
//! Changed files are the union of tracked modifications (staged and
//! unstaged, including deletions and renames) and untracked non-ignored
//! files, read from the NUL-separated output of `git diff --name-status -z
//! HEAD` and `git ls-files --others --exclude-standard -z`. When repository
//! state cannot be determined, discovery reports failure and callers must
//! fail closed by selecting every sensor.
use vstd::prelude::*;

use crate::order::{dedup_by_text, dedup_text, sort_by_keys, stable_sort_of, SortKey};
use crate::text::{from_chars, starts_with, string_views, to_chars};

verus! {

/// How a path differs from `HEAD`.
#[derive(Debug, PartialEq, Eq)]
pub enum ChangeKind {
    /// Staged new file.
    Added,
    /// Content differs from `HEAD` (staged, unstaged, or both).
    Modified,
    /// Tracked file removed from the working tree.
    Deleted,
    /// Tracked file moved; `from` is the previous path.
    Renamed {
        /// Previous repository-relative path.
        from: String,
    },
    /// Present on disk but unknown to git.
    Untracked,
}

/// One changed repository-relative path (`/`-separated).
#[derive(Debug, PartialEq, Eq)]
pub struct ChangedFile {
    /// Repository-relative path with `/` separators.
    pub path: String,
    /// How the path differs from `HEAD`.
    pub kind: ChangeKind,
}

/// Discovered working-tree state for `--changed` selection.
#[derive(Debug, Default, PartialEq, Eq)]
pub struct ChangedFiles {
    /// Changed paths in sorted order.
    pub files: Vec<ChangedFile>,
    /// True when repository state could not be determined; callers must
    /// fail closed (select every sensor) instead of skipping.
    pub discovery_failed: bool,
}

/// A change kind as plain values.
pub enum KindView {
    Added,
    Modified,
    Deleted,
    Renamed(Seq<char>),
    Untracked,
}

/// The view of a change kind.
pub open spec fn kind_view(k: ChangeKind) -> KindView {
    match k {
        ChangeKind::Added => KindView::Added,
        ChangeKind::Modified => KindView::Modified,
        ChangeKind::Deleted => KindView::Deleted,
        ChangeKind::Renamed { from } => KindView::Renamed(from@),
        ChangeKind::Untracked => KindView::Untracked,
    }
}

/// A changed file as plain values: path and kind.
pub open spec fn file_view(f: ChangedFile) -> (Seq<char>, KindView) {
    (f.path@, kind_view(f.kind))
}

/// The views of a list of changed files.
pub open spec fn file_views(v: Seq<ChangedFile>) -> Seq<(Seq<char>, KindView)> {
    v.map_values(|f: ChangedFile| file_view(f))
}

/// The paths of a list of changed files.
pub open spec fn file_paths(v: Seq<ChangedFile>) -> Seq<Seq<char>> {
    v.map_values(|f: ChangedFile| f.path@)
}

/// The views of a list of string slices.
pub open spec fn str_views<'a>(v: Seq<&'a str>) -> Seq<Seq<char>> {
    v.map_values(|s: &'a str| s@)
}

impl ChangedFiles {
    /// Repository-relative paths, in order.
    pub fn paths(&self) -> (p: Vec<&str>)
        ensures
            str_views(p@) == file_paths(self.files@),
    {
        let mut p: Vec<&str> = Vec::new();
        let mut i: usize = 0;
        while i < self.files.len()
            invariant
                i <= self.files.len(),
                str_views(p@) == file_paths(self.files@).take(i as int),
            decreases self.files.len() - i,
        {
            let ghost before = p@;
            p.push(self.files[i].path.as_str());
            proof {
                assert(str_views(p@) =~= str_views(before).push(self.files@[i as int].path@));
                assert(file_paths(self.files@).take(i + 1) =~= file_paths(self.files@).take(i as int).push(self.files@[i as int].path@));
            }
            i = i + 1;
        }
        proof {
            assert(file_paths(self.files@).take(i as int) =~= file_paths(self.files@));
        }
        p
    }
}

/// `path` with `\` replaced by `/`.
pub open spec fn slashes(path: Seq<char>) -> Seq<char> {
    path.map_values(|c: char| if c == '\\' {
        '/'
    } else {
        c
    })
}

/// A git-reported path normalized: `/` separators on every OS, no leading
/// `./`.
pub open spec fn normalized(path: Seq<char>) -> Seq<char> {
    let p = slashes(path);
    if starts_with(p, seq!['.', '/']) {
        p.skip(2)
    } else {
        p
    }
}

/// Normalizes a git-reported path: `/` separators on every OS, no `./`.
pub fn normalize(path: &str) -> (out: String)
    ensures
        out@ == normalized(path@),
{
    let cs = to_chars(path);
    let mut v: Vec<char> = Vec::new();
    let mut i: usize = 0;
    while i < cs.len()
        invariant
            i <= cs.len(),
            cs@ == path@,
            v@ == slashes(cs@.take(i as int)),
        decreases cs.len() - i,
    {
        let c = if cs[i] == '\\' {
            '/'
        } else {
            cs[i]
        };
        v.push(c);
        proof {
            assert(slashes(cs@.take(i + 1)) =~= slashes(cs@.take(i as int)).push(c));
        }
        i = i + 1;
    }
    proof {
        assert(cs@.take(i as int) =~= cs@);
    }
    if v.len() >= 2 && v[0] == '.' && v[1] == '/' {
        proof {
            assert(v@.subrange(0, 2) =~= seq!['.', '/']);
        }
        let rest = crate::text::slice_range(&v, 2, v.len());
        proof {
            assert(rest@ =~= v@.skip(2));
        }
        from_chars(&rest)
    } else {
        proof {
            if v.len() >= 2 {
                assert(v@.subrange(0, 2)[0] == v@[0]);
                assert(v@.subrange(0, 2)[1] == v@[1]);
            }
        }
        from_chars(&v)
    }
}

/// Name for what `std::str::from_utf8` decodes: the characters of valid
/// UTF-8, or `None`.
pub uninterp spec fn utf8_decoded(bytes: Seq<u8>) -> Option<Seq<char>>;

/// `std::str::from_utf8`: the text of `bytes` when they are valid UTF-8.
#[verifier::external_body]
fn utf8_text(bytes: &[u8]) -> (r: Option<String>)
    ensures
        match r {
            Some(s) => utf8_decoded(bytes@) == Some(s@),
            None => utf8_decoded(bytes@) is None,
        },
{
    std::str::from_utf8(bytes).ok().map(|s| s.to_owned())
}

/// Index of the first NUL byte.
pub open spec fn first_nul(b: Seq<u8>) -> Option<int>
    decreases b.len(),
{
    if b.len() == 0 {
        None
    } else if b[0] == 0 {
        Some(0)
    } else {
        match first_nul(b.drop_first()) {
            Some(i) => Some(i + 1),
            None => None,
        }
    }
}

proof fn lemma_first_nul(b: Seq<u8>)
    ensures
        match first_nul(b) {
            Some(i) => 0 <= i < b.len() && b[i] == 0 && forall|k: int| 0 <= k < i ==> b[k] != 0,
            None => forall|k: int| 0 <= k < b.len() ==> b[k] != 0,
        },
    decreases b.len(),
{
    if b.len() > 0 && b[0] != 0 {
        lemma_first_nul(b.drop_first());
        assert forall|k: int| 1 <= k < b.len() implies b[k] == b.drop_first()[k - 1] by {}
    }
}

proof fn lemma_first_nul_is(b: Seq<u8>, i: int)
    requires
        0 <= i <= b.len(),
        forall|k: int| 0 <= k < i ==> b[k] != 0,
        i < b.len() ==> b[i] == 0,
    ensures
        first_nul(b) == (if i < b.len() {
            Some(i)
        } else {
            None::<int>
        }),
{
    lemma_first_nul(b);
    match first_nul(b) {
        Some(j) => {
            if j < i {
                assert(b[j] != 0);
            }
            if j > i && i < b.len() {
                assert(b[i] != 0);
            }
            if i == b.len() {
                assert(b[j] != 0);
            }
        },
        None => {
            if i < b.len() {
                assert(b[i] != 0);
            }
        },
    }
}

/// The chunks of `bytes` between NUL bytes.
pub open spec fn nul_chunks(bytes: Seq<u8>) -> Seq<Seq<u8>>
    decreases bytes.len(),
{
    match first_nul(bytes) {
        Some(i) => if 0 <= i < bytes.len() {
            seq![bytes.take(i)] + nul_chunks(bytes.skip(i + 1))
        } else {
            seq![bytes]
        },
        None => seq![bytes],
    }
}

/// The record one chunk gives: its normalized text when it is non-empty
/// valid UTF-8.
pub open spec fn chunk_record(chunk: Seq<u8>) -> Seq<Seq<char>> {
    match utf8_decoded(chunk) {
        Some(t) => if t.len() > 0 {
            seq![normalized(t)]
        } else {
            seq![]
        },
        None => seq![],
    }
}

/// The records of NUL-separated git output: each chunk that is non-empty
/// valid UTF-8, normalized.
pub open spec fn records_of(chunks: Seq<Seq<u8>>) -> Seq<Seq<char>>
    decreases chunks.len(),
{
    if chunks.len() == 0 {
        seq![]
    } else {
        chunk_record(chunks[0]) + records_of(chunks.drop_first())
    }
}

/// Appends the record of one chunk.
fn push_record(out: &mut Vec<String>, chunk: &[u8])
    ensures
        string_views(final(out)@) == string_views(old(out)@) + chunk_record(chunk@),
{
    let ghost before = out@;
    match utf8_text(chunk) {
        Some(t) => {
            if crate::text::to_chars(t.as_str()).len() > 0 {
                let n = normalize(t.as_str());
                out.push(n);
                proof {
                    assert(string_views(out@) =~= string_views(before) + seq![n@]);
                }
            } else {
                proof {
                    assert(string_views(out@) =~= string_views(before) + Seq::<Seq<char>>::empty());
                }
            }
        },
        None => {
            proof {
                assert(string_views(out@) =~= string_views(before) + Seq::<Seq<char>>::empty());
            }
        },
    }
}

/// Splits NUL-separated git output into its normalized text records.
pub fn nul_records(bytes: &[u8]) -> (out: Vec<String>)
    ensures
        string_views(out@) == records_of(nul_chunks(bytes@)),
{
    let mut out: Vec<String> = Vec::new();
    let mut start: usize = 0;
    let mut i: usize = 0;
    proof {
        assert(bytes@.skip(0) =~= bytes@);
        assert(string_views(out@) =~= Seq::<Seq<char>>::empty());
    }
    while i < bytes.len()
        invariant
            start <= i <= bytes.len(),
            forall|j: int| start <= j < i ==> bytes@[j] != 0,
            string_views(out@) + records_of(nul_chunks(bytes@.skip(start as int))) == records_of(nul_chunks(bytes@)),
        decreases bytes.len() - i,
    {
        if bytes[i] == 0 {
            let ghost rest = bytes@.skip(start as int);
            let ghost k = (i - start) as int;
            let chunk = crate::text::byte_range(bytes, start, i);
            proof {
                assert forall|j: int| 0 <= j < k implies rest[j] != 0 by {
                    assert(rest[j] == bytes@[start + j]);
                }
                lemma_first_nul_is(rest, k);
                assert(chunk@ =~= rest.take(k));
                assert(rest.skip(k + 1) =~= bytes@.skip(i + 1));
                let tail = nul_chunks(rest.skip(k + 1));
                assert((seq![rest.take(k)] + tail).drop_first() =~= tail);
            }
            let ghost before = out@;
            push_record(&mut out, chunk.as_slice());
            start = i + 1;
        }
        i = i + 1;
    }
    let ghost rest = bytes@.skip(start as int);
    let chunk = crate::text::byte_range(bytes, start, bytes.len());
    proof {
        assert(chunk@ =~= rest);
        assert forall|j: int| 0 <= j < rest.len() implies rest[j] != 0 by {
            assert(rest[j] == bytes@[start + j]);
        }
        lemma_first_nul_is(rest, rest.len() as int);
        assert(seq![rest].drop_first() =~= Seq::<Seq<u8>>::empty());
        assert(nul_chunks(rest) == seq![rest]);
        assert(seq![rest][0] == rest);
        assert(records_of(Seq::<Seq<u8>>::empty()) == Seq::<Seq<char>>::empty());
        assert(records_of(seq![rest]) == chunk_record(rest) + records_of(seq![rest].drop_first()));
        assert(records_of(seq![rest]) =~= chunk_record(rest) + Seq::<Seq<char>>::empty());
    }
    push_record(&mut out, chunk.as_slice());
    proof {
        assert(chunk_record(rest) + Seq::<Seq<char>>::empty() =~= chunk_record(rest));
    }
    out
}

/// The kind a status letter names for a single-path record.
pub open spec fn status_kind(k: char) -> KindView {
    if k == 'A' {
        KindView::Added
    } else if k == 'D' {
        KindView::Deleted
    } else {
        KindView::Modified
    }
}

/// Tracked changes from `--name-status -z` records: a status record, then
/// one path (`A` added, `D` deleted, `M`, `T` or an unknown letter
/// modified), or two for `R`/`C` renames and copies (`<from>`, `<to>`). A
/// record group cut short by the end of the output adds nothing.
pub open spec fn tracked_from(r: Seq<Seq<char>>) -> Seq<(Seq<char>, KindView)>
    decreases r.len(),
{
    if r.len() == 0 {
        seq![]
    } else {
        let k = if r[0].len() > 0 {
            r[0][0]
        } else {
            '?'
        };
        if k == 'R' || k == 'C' {
            if r.len() >= 3 {
                seq![(r[2], KindView::Renamed(r[1]))] + tracked_from(r.skip(3))
            } else {
                seq![]
            }
        } else if r.len() >= 2 {
            seq![(r[1], status_kind(k))] + tracked_from(r.skip(2))
        } else {
            seq![]
        }
    }
}

/// Parses tracked changes from `git diff --name-status -z HEAD` records.
pub fn tracked_changes(records: &Vec<String>) -> (files: Vec<ChangedFile>)
    ensures
        file_views(files@) == tracked_from(string_views(records@)),
{
    let ghost rv = string_views(records@);
    let mut files: Vec<ChangedFile> = Vec::new();
    let mut i: usize = 0;
    proof {
        assert(rv.skip(0) =~= rv);
    }
    while i < records.len()
        invariant
            i <= records.len(),
            rv == string_views(records@),
            file_views(files@) + tracked_from(rv.skip(i as int)) == tracked_from(rv),
        decreases records.len() - i,
    {
        let ghost rest = rv.skip(i as int);
        let status = to_chars(records[i].as_str());
        let k = if status.len() > 0 {
            status[0]
        } else {
            '?'
        };
        proof {
            assert(rest[0] == records@[i as int]@);
        }
        let ghost before = files@;
        if k == 'R' || k == 'C' {
            if records.len() - i > 2 {
                let f = ChangedFile { path: records[i + 2].clone(), kind: ChangeKind::Renamed { from: records[i + 1].clone() } };
                files.push(f);
                proof {
                    assert(rest[1] == records@[i + 1]@ && rest[2] == records@[i + 2]@);
                    assert(rest.skip(3) =~= rv.skip(i + 3));
                    assert(file_views(files@) =~= file_views(before) + seq![(rest[2], KindView::Renamed(rest[1]))]);
                }
                i = i + 3;
            } else {
                proof {
                    assert(rv.skip(records.len() as int) =~= Seq::<Seq<char>>::empty());
                    assert(file_views(files@) + Seq::<(Seq<char>, KindView)>::empty() =~= file_views(files@));
                }
                i = records.len();
            }
        } else if records.len() - i > 1 {
            let kind = if k == 'A' {
                ChangeKind::Added
            } else if k == 'D' {
                ChangeKind::Deleted
            } else {
                ChangeKind::Modified
            };
            let f = ChangedFile { path: records[i + 1].clone(), kind };
            files.push(f);
            proof {
                assert(rest[1] == records@[i + 1]@);
                assert(rest.skip(2) =~= rv.skip(i + 2));
                assert(file_views(files@) =~= file_views(before) + seq![(rest[1], status_kind(k))]);
            }
            i = i + 2;
        } else {
            proof {
                assert(rv.skip(records.len() as int) =~= Seq::<Seq<char>>::empty());
                assert(file_views(files@) + Seq::<(Seq<char>, KindView)>::empty() =~= file_views(files@));
            }
            i = records.len();
        }
    }
    proof {
        assert(rv.skip(i as int) =~= Seq::<Seq<char>>::empty());
        assert(file_views(files@) + Seq::<(Seq<char>, KindView)>::empty() =~= file_views(files@));
    }
    files
}

/// Untracked files from `git ls-files --others --exclude-standard -z`
/// records, in order.
pub fn untracked_files(records: Vec<String>) -> (files: Vec<ChangedFile>)
    ensures
        file_views(files@) == string_views(records@).map_values(|p: Seq<char>| (p, KindView::Untracked)),
{
    let ghost rv = string_views(records@);
    let mut files: Vec<ChangedFile> = Vec::new();
    let mut i: usize = 0;
    while i < records.len()
        invariant
            i <= records.len(),
            rv == string_views(records@),
            file_views(files@) == rv.take(i as int).map_values(|p: Seq<char>| (p, KindView::Untracked)),
        decreases records.len() - i,
    {
        let ghost before = files@;
        files.push(ChangedFile { path: records[i].clone(), kind: ChangeKind::Untracked });
        proof {
            assert(file_views(files@) =~= file_views(before).push((rv[i as int], KindView::Untracked)));
            assert(rv.take(i + 1).map_values(|p: Seq<char>| (p, KindView::Untracked)) =~= rv.take(i as int).map_values(|p: Seq<char>| (p, KindView::Untracked)).push((rv[i as int], KindView::Untracked)));
        }
        i = i + 1;
    }
    proof {
        assert(rv.take(i as int) =~= rv);
    }
    files
}

/// Changed files ordered by path.
pub open spec fn path_key_fn() -> spec_fn(ChangedFile) -> (int, Seq<char>) {
    |f: ChangedFile| (0int, f.path@)
}

/// Sort keys for changed files.
fn path_keys(v: &Vec<ChangedFile>) -> (keys: Vec<SortKey>)
    ensures
        keys.len() == v.len(),
        forall|k: int| 0 <= k < v.len() ==> #[trigger] keys@[k].view_key() == path_key_fn()(v@[k]),
{
    let mut keys: Vec<SortKey> = Vec::new();
    let mut j: usize = 0;
    while j < v.len()
        invariant
            j <= v.len(),
            keys.len() == j,
            forall|k: int| 0 <= k < j ==> #[trigger] keys@[k].view_key() == path_key_fn()(v@[k]),
        decreases v.len() - j,
    {
        keys.push(SortKey { num: 0, text: to_chars(v[j].path.as_str()) });
        j = j + 1;
    }
    keys
}

/// Assembles discovered changes: outside a work tree discovery fails closed
/// with no files; otherwise the tracked changes then the untracked files
/// (each from its command's output, empty when that command failed), stably
/// sorted by path with later duplicates of a path dropped.
pub fn discover(work_tree: bool, tracked_output: Option<&[u8]>, untracked_output: Option<&[u8]>) -> (c: ChangedFiles)
    ensures
        !work_tree ==> c.discovery_failed && c.files.len() == 0,
        work_tree ==> !c.discovery_failed && exists|all: Seq<ChangedFile>, sorted: Seq<ChangedFile>, p: Seq<int>|
            #[trigger] stable_sort_of(sorted, all, p, path_key_fn()) && file_views(all) == tracked_from(
                match tracked_output {
                    Some(b) => records_of(nul_chunks(b@)),
                    None => Seq::empty(),
                },
            ) + (match untracked_output {
                Some(b) => records_of(nul_chunks(b@)),
                None => Seq::empty(),
            }).map_values(|p: Seq<char>| (p, KindView::Untracked)) && c.files@ == dedup_text(None, sorted, path_key_fn()),
{
    if !work_tree {
        return ChangedFiles { files: Vec::new(), discovery_failed: true };
    }
    let tracked_records = match tracked_output {
        Some(b) => nul_records(b),
        None => {
            let v: Vec<String> = Vec::new();
            proof {
                assert(string_views(v@) =~= Seq::<Seq<char>>::empty());
            }
            v
        },
    };
    let untracked_records = match untracked_output {
        Some(b) => nul_records(b),
        None => {
            let v: Vec<String> = Vec::new();
            proof {
                assert(string_views(v@) =~= Seq::<Seq<char>>::empty());
            }
            v
        },
    };
    let mut files = tracked_changes(&tracked_records);
    let extra = untracked_files(untracked_records);
    let ghost a = files@;
    let mut extra_v = extra;
    files.append(&mut extra_v);
    proof {
        assert(file_views(files@) =~= file_views(a) + file_views(extra@));
    }
    let keys = path_keys(&files);
    let ghost all = files@;
    let (sorted, Ghost(p)) = sort_by_keys(files, keys, Ghost(path_key_fn()));
    let ghost sorted_items = sorted@;
    let keys2 = path_keys(&sorted);
    let deduped = dedup_by_text(sorted, keys2, Ghost(path_key_fn()));
    proof {
        assert(stable_sort_of(sorted_items, all, p, path_key_fn()));
    }
    ChangedFiles { files: deduped, discovery_failed: false }
}

} // verus!
