//! Character-sequence helpers shared by the parsers and renderers.
//!
//! Every executable helper here is stated over the `Seq<char>` view of its
//! strings, so callers can speak of splitting, prefixes, and number parsing
//! in their own contracts.
use vstd::prelude::*;

verus! {

// ---------------------------------------------------------------------------
// Building strings
// ---------------------------------------------------------------------------

/// Appends one character to a string (`String::push`).
#[verifier::external_body]
pub(crate) fn push_char(s: &mut String, c: char)
    ensures
        final(s)@ == old(s)@.push(c),
{
    s.push(c);
}

/// The characters of `s`, in order.
pub fn to_chars(s: &str) -> (out: Vec<char>)
    ensures
        out@ == s@,
{
    let mut out: Vec<char> = Vec::new();
    for c in it: s.chars()
        invariant
            out@ == it.seq().take(it.index() as int),
    {
        out.push(c);
    }
    out
}

/// A string holding exactly the characters of `v`.
pub fn from_chars(v: &[char]) -> (out: String)
    ensures
        out@ == v@,
{
    let mut out = String::new();
    let mut i: usize = 0;
    while i < v.len()
        invariant
            i <= v.len(),
            out@ == v@.take(i as int),
        decreases v.len() - i,
    {
        push_char(&mut out, v[i]);
        proof {
            assert(v@.take(i as int).push(v@[i as int]) =~= v@.take(i + 1));
        }
        i = i + 1;
    }
    proof {
        assert(v@.take(v.len() as int) =~= v@);
    }
    out
}

/// The concatenation of `a` and `b`.
pub fn concat(a: &str, b: &str) -> (out: String)
    ensures
        out@ == a@ + b@,
{
    let mut s = a.to_owned();
    s.append(b);
    s
}

/// Appends `b` to `a` in place.
pub fn append_str(a: &mut String, b: &str)
    ensures
        final(a)@ == old(a)@ + b@,
{
    a.append(b);
}

/// An owned copy of `s`.
pub fn owned(s: &str) -> (out: String)
    ensures
        out@ == s@,
{
    s.to_owned()
}

// ---------------------------------------------------------------------------
// Character classes
// ---------------------------------------------------------------------------

/// ASCII decimal digit.
pub open spec fn is_digit(c: char) -> bool {
    '0' <= c && c <= '9'
}

/// ASCII letter or digit (`char::is_ascii_alphanumeric`).
pub open spec fn is_ascii_alnum(c: char) -> bool {
    ('0' <= c && c <= '9') || ('a' <= c && c <= 'z') || ('A' <= c && c <= 'Z')
}

/// ASCII lowercase mapping (`char::to_ascii_lowercase`).
pub open spec fn ascii_lower(c: char) -> char {
    if 'A' <= c && c <= 'Z' {
        ((c as u32) + 32) as char
    } else {
        c
    }
}

/// Whether `c` is a decimal digit.
pub fn char_is_digit(c: char) -> (b: bool)
    ensures
        b == is_digit(c),
{
    '0' <= c && c <= '9'
}

/// Whether `c` is an ASCII letter or digit.
pub fn char_is_ascii_alnum(c: char) -> (b: bool)
    ensures
        b == is_ascii_alnum(c),
{
    ('0' <= c && c <= '9') || ('a' <= c && c <= 'z') || ('A' <= c && c <= 'Z')
}

/// Lowercases an ASCII letter and keeps every other character.
pub fn char_ascii_lower(c: char) -> (out: char)
    ensures
        out == ascii_lower(c),
{
    if 'A' <= c && c <= 'Z' {
        let n: u32 = (c as u32) + 32;
        proof {
            assert(0x41 <= n <= 0x7a);
        }
        char_from_u32_ascii(n)
    } else {
        c
    }
}

/// The character with ASCII code `n`.
fn char_from_u32_ascii(n: u32) -> (c: char)
    requires
        n < 0x80,
    ensures
        c == n as char,
{
    let b: u8 = n as u8;
    b as char
}

/// Whether `c` has the Unicode `White_Space` property (what
/// `char::is_whitespace` answers): the 25 code points U+0009..U+000D, U+0020,
/// U+0085, U+00A0, U+1680, U+2000..U+200A, U+2028, U+2029, U+202F, U+205F
/// and U+3000.
pub open spec fn char_whitespace(c: char) -> bool {
    let n = c as u32;
    (0x09 <= n && n <= 0x0d) || n == 0x20 || n == 0x85 || n == 0xa0 || n == 0x1680 || (0x2000 <= n && n
        <= 0x200a) || n == 0x2028 || n == 0x2029 || n == 0x202f || n == 0x205f || n == 0x3000
}

/// Whether `c` is Unicode white space (`char::is_whitespace`).
pub(crate) fn is_whitespace(c: char) -> (b: bool)
    ensures
        b == char_whitespace(c),
{
    let n = c as u32;
    (0x09 <= n && n <= 0x0d) || n == 0x20 || n == 0x85 || n == 0xa0 || n == 0x1680 || (0x2000 <= n && n
        <= 0x200a) || n == 0x2028 || n == 0x2029 || n == 0x202f || n == 0x205f || n == 0x3000
}

/// Name for what `char::is_uppercase` answers (Unicode `Uppercase`).
pub uninterp spec fn char_uppercase(c: char) -> bool;

/// `char::is_uppercase`: whether `c` carries the Unicode `Uppercase`
/// property; the answer depends on `c` alone.
#[verifier::external_body]
pub(crate) fn is_uppercase(c: char) -> (b: bool)
    ensures
        b == char_uppercase(c),
{
    c.is_uppercase()
}

/// Name for what `str::to_lowercase` returns (Unicode lowercase mapping).
pub uninterp spec fn lowercase(s: Seq<char>) -> Seq<char>;

/// `str::to_lowercase`: the Unicode lowercase form of `s`, a function of
/// `s` alone.
#[verifier::external_body]
pub(crate) fn to_lowercase(s: &str) -> (out: String)
    ensures
        out@ == lowercase(s@),
{
    s.to_lowercase()
}

// ---------------------------------------------------------------------------
// Prefixes, suffixes, containment
// ---------------------------------------------------------------------------

/// `p` is a prefix of `s`.
pub open spec fn starts_with(s: Seq<char>, p: Seq<char>) -> bool {
    p.len() <= s.len() && s.subrange(0, p.len() as int) == p
}

/// `p` is a suffix of `s`.
pub open spec fn ends_with(s: Seq<char>, p: Seq<char>) -> bool {
    p.len() <= s.len() && s.subrange(s.len() - p.len(), s.len() as int) == p
}

/// `p` occurs in `s` at position `i`.
pub open spec fn occurs_at(s: Seq<char>, p: Seq<char>, i: int) -> bool {
    0 <= i && i + p.len() <= s.len() && s.subrange(i, i + p.len()) == p
}

/// `p` occurs somewhere in `s` (`str::contains`).
pub open spec fn contains(s: Seq<char>, p: Seq<char>) -> bool {
    exists|i: int| occurs_at(s, p, i)
}

/// Whether `s` starts with `p`.
pub fn str_starts_with(s: &str, p: &str) -> (b: bool)
    ensures
        b == starts_with(s@, p@),
{
    let sv = to_chars(s);
    let pv = to_chars(p);
    slice_starts_with(&sv, &pv)
}

/// Whether `s` starts with `p`, over character slices.
pub fn slice_starts_with(s: &[char], p: &[char]) -> (b: bool)
    ensures
        b == starts_with(s@, p@),
{
    if p.len() > s.len() {
        return false;
    }
    let mut i: usize = 0;
    while i < p.len()
        invariant
            i <= p.len() <= s.len(),
            forall|k: int| 0 <= k < i ==> s@[k] == p@[k],
        decreases p.len() - i,
    {
        if s[i] != p[i] {
            proof {
                assert(s@.subrange(0, p.len() as int)[i as int] != p@[i as int]);
            }
            return false;
        }
        i = i + 1;
    }
    proof {
        assert(s@.subrange(0, p.len() as int) =~= p@);
    }
    true
}

/// Whether `p` occurs in `s` at `i`, over character slices.
pub fn slice_occurs_at(s: &[char], p: &[char], i: usize) -> (b: bool)
    ensures
        b == occurs_at(s@, p@, i as int),
{
    if i > s.len() || p.len() > s.len() - i {
        return false;
    }
    let mut k: usize = 0;
    while k < p.len()
        invariant
            k <= p.len(),
            i + p.len() <= s.len(),
            forall|m: int| 0 <= m < k ==> s@[i + m] == p@[m],
        decreases p.len() - k,
    {
        if s[i + k] != p[k] {
            proof {
                assert(s@.subrange(i as int, i + p.len())[k as int] != p@[k as int]);
            }
            return false;
        }
        k = k + 1;
    }
    proof {
        assert(s@.subrange(i as int, i + p.len()) =~= p@);
    }
    true
}

/// Whether `p` occurs anywhere in `s`, over character slices.
pub fn slice_contains(s: &[char], p: &[char]) -> (b: bool)
    ensures
        b == contains(s@, p@),
{
    let n = s.len();
    for i in 0..n
        invariant
            n == s.len(),
            forall|k: int| 0 <= k < i ==> !occurs_at(s@, p@, k),
    {
        if slice_occurs_at(s, p, i) {
            return true;
        }
    }
    if slice_occurs_at(s, p, n) {
        return true;
    }
    proof {
        assert forall|k: int| !occurs_at(s@, p@, k) by {
            if occurs_at(s@, p@, k) {
                assert(k <= n);
            }
        }
    }
    false
}

/// Whether `p` occurs anywhere in `s` (`str::contains`).
pub fn str_contains(s: &str, p: &str) -> (b: bool)
    ensures
        b == contains(s@, p@),
{
    let sv = to_chars(s);
    let pv = to_chars(p);
    slice_contains(&sv, &pv)
}

/// Index of the first occurrence of `p` in `s` (`str::find`).
pub open spec fn find_sub(s: Seq<char>, p: Seq<char>) -> Option<int> {
    if contains(s, p) {
        Some(choose|i: int| occurs_at(s, p, i) && forall|j: int| 0 <= j < i ==> !occurs_at(s, p, j))
    } else {
        None
    }
}

/// The first occurrence of `p` in `s`, over character slices.
pub fn slice_find(s: &[char], p: &[char]) -> (r: Option<usize>)
    ensures
        r matches Some(i) ==> occurs_at(s@, p@, i as int) && forall|j: int| 0 <= j < i ==> !occurs_at(s@, p@, j),
        r is None ==> !contains(s@, p@),
        r matches Some(i) ==> find_sub(s@, p@) == Some(i as int),
        r is None ==> find_sub(s@, p@) is None,
{
    let n = s.len();
    let mut i: usize = 0;
    loop
        invariant
            n == s.len(),
            i <= n,
            forall|k: int| 0 <= k < i ==> !occurs_at(s@, p@, k),
        ensures
            forall|k: int| 0 <= k <= n ==> !occurs_at(s@, p@, k),
        decreases n - i,
    {
        if slice_occurs_at(s, p, i) {
            proof {
                let w = choose|w: int| occurs_at(s@, p@, w) && forall|j: int| 0 <= j < w ==> !occurs_at(s@, p@, j);
                assert(occurs_at(s@, p@, w) && forall|j: int| 0 <= j < w ==> !occurs_at(s@, p@, j));
                if w > i {
                    assert(!occurs_at(s@, p@, i as int));
                }
            }
            return Some(i);
        }
        if i == n {
            break;
        }
        i = i + 1;
    }
    proof {
        assert forall|k: int| !occurs_at(s@, p@, k) by {
            if occurs_at(s@, p@, k) {
                assert(k <= n);
            }
        }
    }
    None
}

/// The parts joined with `sep` between them (`[String]::join`).
pub open spec fn join_with(parts: Seq<Seq<char>>, sep: Seq<char>) -> Seq<char>
    decreases parts.len(),
{
    if parts.len() == 0 {
        seq![]
    } else if parts.len() == 1 {
        parts[0]
    } else {
        join_with(parts.drop_last(), sep) + sep + parts.last()
    }
}

/// Joins strings with a separator.
pub fn join_strings(parts: &[String], sep: &str) -> (out: String)
    ensures
        out@ == join_with(string_views(parts@), sep@),
{
    let mut out = String::new();
    let mut i: usize = 0;
    proof {
        assert(string_views(parts@).take(0) =~= Seq::<Seq<char>>::empty());
    }
    while i < parts.len()
        invariant
            i <= parts.len(),
            out@ == join_with(string_views(parts@).take(i as int), sep@),
        decreases parts.len() - i,
    {
        let ghost pv = string_views(parts@);
        proof {
            assert(pv.take(i + 1).drop_last() =~= pv.take(i as int));
            assert(pv.take(i + 1).last() == parts@[i as int]@);
        }
        if i > 0 {
            append_str(&mut out, sep);
        } else {
            proof {
                assert(out@ =~= Seq::<char>::empty());
            }
        }
        append_str(&mut out, parts[i].as_str());
        proof {
            if i == 0 {
                assert(out@ =~= pv.take(1)[0]);
            }
        }
        i = i + 1;
    }
    proof {
        assert(string_views(parts@).take(i as int) =~= string_views(parts@));
    }
    out
}

/// Whether two strings hold the same characters.
pub fn str_eq(a: &str, b: &str) -> (r: bool)
    ensures
        r == (a@ == b@),
{
    let av = to_chars(a);
    let bv = to_chars(b);
    if av.len() != bv.len() {
        return false;
    }
    let r = slice_starts_with(&av, &bv);
    proof {
        assert(av@ =~= av@.subrange(0, bv@.len() as int));
    }
    r
}


// ---------------------------------------------------------------------------
// Searching and splitting
// ---------------------------------------------------------------------------

/// Index of the first character of `s` that belongs to `set`.
pub open spec fn first_in(s: Seq<char>, set: Seq<char>) -> Option<int>
    decreases s.len(),
{
    if s.len() == 0 {
        None
    } else if set.contains(s[0]) {
        Some(0)
    } else {
        match first_in(s.drop_first(), set) {
            Some(i) => Some(i + 1),
            None => None,
        }
    }
}

/// `first_in` names the least index whose character is in `set`.
pub proof fn lemma_first_in(s: Seq<char>, set: Seq<char>)
    ensures
        match first_in(s, set) {
            Some(i) => 0 <= i < s.len() && set.contains(s[i]) && forall|k: int|
                0 <= k < i ==> !set.contains(#[trigger] s[k]),
            None => forall|k: int| 0 <= k < s.len() ==> !set.contains(#[trigger] s[k]),
        },
    decreases s.len(),
{
    if s.len() > 0 && !set.contains(s[0]) {
        lemma_first_in(s.drop_first(), set);
        match first_in(s.drop_first(), set) {
            Some(i) => {
                assert forall|k: int| 0 <= k < i + 1 implies !set.contains(#[trigger] s[k]) by {
                    if k > 0 {
                        assert(s[k] == s.drop_first()[k - 1]);
                    }
                }
            },
            None => {
                assert forall|k: int| 0 <= k < s.len() implies !set.contains(#[trigger] s[k]) by {
                    if k > 0 {
                        assert(s[k] == s.drop_first()[k - 1]);
                    }
                }
            },
        }
    }
}

/// A least matching index is what `first_in` names; no match means `None`.
pub proof fn lemma_first_in_is(s: Seq<char>, set: Seq<char>, i: int)
    requires
        (0 <= i < s.len() && set.contains(s[i]) && forall|k: int|
            0 <= k < i ==> !set.contains(#[trigger] s[k])) || (i == s.len() && forall|k: int|
            0 <= k < s.len() ==> !set.contains(#[trigger] s[k])),
    ensures
        first_in(s, set) == (if i < s.len() {
            Some(i)
        } else {
            None::<int>
        }),
{
    lemma_first_in(s, set);
    match first_in(s, set) {
        Some(j) => {
            if j < i {
                assert(!set.contains(s[j]));
            }
            if i < j && i < s.len() {
                assert(!set.contains(s[i]));
            }
            if i == s.len() {
                assert(!set.contains(s[j]));
            }
        },
        None => {
            if i < s.len() {
                assert(!set.contains(s[i]));
            }
        },
    }
}

/// The pieces of `s` between characters of `set` (`str::split` on a set of
/// characters).
pub open spec fn split_by(s: Seq<char>, set: Seq<char>) -> Seq<Seq<char>>
    decreases s.len(),
{
    match first_in(s, set) {
        Some(i) => {
            if 0 <= i < s.len() {
                seq![s.take(i)] + split_by(s.skip(i + 1), set)
            } else {
                seq![s]
            }
        },
        None => seq![s],
    }
}

/// The text before the first character of `set`, or all of `s`.
pub open spec fn before_first(s: Seq<char>, set: Seq<char>) -> Seq<char> {
    match first_in(s, set) {
        Some(i) => s.take(i),
        None => s,
    }
}

/// `str::split_once` on one character.
pub open spec fn split_once(s: Seq<char>, c: char) -> Option<(Seq<char>, Seq<char>)> {
    match first_in(s, seq![c]) {
        Some(i) => Some((s.take(i), s.skip(i + 1))),
        None => None,
    }
}

/// The first piece of a split is the text before the first separator.
pub proof fn lemma_split_first(s: Seq<char>, set: Seq<char>)
    ensures
        split_by(s, set).len() >= 1,
        split_by(s, set)[0] == before_first(s, set),
{
    lemma_first_in(s, set);
}

/// Least index at or after `from` whose character belongs to `set`.
pub fn find_in(s: &[char], from: usize, set: &[char]) -> (r: Option<usize>)
    requires
        from <= s.len(),
    ensures
        first_in(s@.skip(from as int), set@) == (match r {
            Some(j) => Some(j - from),
            None => None::<int>,
        }),
        r matches Some(j) ==> from <= j < s.len(),
{
    let mut j = from;
    while j < s.len()
        invariant
            from <= j <= s.len(),
            forall|k: int| from <= k < j ==> !set@.contains(#[trigger] s@[k]),
        decreases s.len() - j,
    {
        if slice_has(set, s[j]) {
            proof {
                let t = s@.skip(from as int);
                assert forall|k: int| 0 <= k < j - from implies !set@.contains(#[trigger] t[k]) by {
                    assert(t[k] == s@[from + k]);
                }
                assert(t[j - from] == s@[j as int]);
                lemma_first_in_is(t, set@, j - from);
            }
            return Some(j);
        }
        j = j + 1;
    }
    proof {
        let t = s@.skip(from as int);
        assert forall|k: int| 0 <= k < t.len() implies !set@.contains(#[trigger] t[k]) by {
            assert(t[k] == s@[from + k]);
        }
        lemma_first_in_is(t, set@, t.len() as int);
    }
    None
}

/// Whether `c` occurs in `set`.
pub fn slice_has(set: &[char], c: char) -> (b: bool)
    ensures
        b == set@.contains(c),
{
    let mut i: usize = 0;
    while i < set.len()
        invariant
            i <= set.len(),
            forall|k: int| 0 <= k < i ==> set@[k] != c,
        decreases set.len() - i,
    {
        if set[i] == c {
            return true;
        }
        i = i + 1;
    }
    false
}

/// `split_by` unfolds one piece at a time from any starting position.
proof fn lemma_split_step(s: Seq<char>, set: Seq<char>, pos: int, j: int)
    requires
        0 <= pos <= j < s.len(),
        first_in(s.skip(pos), set) == Some(j - pos),
    ensures
        split_by(s.skip(pos), set) == seq![s.subrange(pos, j)] + split_by(s.skip(j + 1), set),
{
    let t = s.skip(pos);
    assert(t.take(j - pos) =~= s.subrange(pos, j));
    assert(t.skip(j - pos + 1) =~= s.skip(j + 1));
}

/// The character views of a list of owned pieces.
pub open spec fn views(v: Seq<Vec<char>>) -> Seq<Seq<char>> {
    v.map_values(|p: Vec<char>| p@)
}

/// `s` split on every character of `set`, as owned pieces.
pub fn split_chars(s: &[char], set: &[char]) -> (out: Vec<Vec<char>>)
    ensures
        views(out@) == split_by(s@, set@),
{
    let mut out: Vec<Vec<char>> = Vec::new();
    let mut pos: usize = 0;
    proof {
        assert(s@.skip(0) =~= s@);
    }
    loop
        invariant
            pos <= s.len(),
            views(out@) + split_by(s@.skip(pos as int), set@) == split_by(s@, set@),
        decreases s.len() - pos,
    {
        match find_in(s, pos, set) {
            Some(j) => {
                let piece = slice_range(s, pos, j);
                proof {
                    lemma_split_step(s@, set@, pos as int, j as int);
                    assert(views(out@).push(piece@) + split_by(s@.skip(j + 1), set@)
                        =~= views(out@) + split_by(s@.skip(pos as int), set@));
                }
                let ghost before = out@;
                out.push(piece);
                proof {
                    assert(views(out@) =~= views(before).push(piece@));
                }
                pos = j + 1;
            },
            None => {
                let piece = slice_range(s, pos, s.len());
                let ghost before = out@;
                proof {
                    assert(s@.subrange(pos as int, s.len() as int) =~= s@.skip(pos as int));
                    assert(split_by(s@.skip(pos as int), set@) == seq![s@.skip(pos as int)]);
                }
                out.push(piece);
                proof {
                    assert(views(out@) =~= views(before).push(piece@));
                    assert(views(before).push(piece@) =~= views(before) + seq![s@.skip(pos as int)]);
                }
                return out;
            },
        }
    }
}

/// The characters of `s` from `lo` up to `hi`.
pub fn slice_range(s: &[char], lo: usize, hi: usize) -> (out: Vec<char>)
    requires
        lo <= hi <= s.len(),
    ensures
        out@ == s@.subrange(lo as int, hi as int),
{
    let mut out: Vec<char> = Vec::new();
    let mut i = lo;
    while i < hi
        invariant
            lo <= i <= hi <= s.len(),
            out@ == s@.subrange(lo as int, i as int),
        decreases hi - i,
    {
        out.push(s[i]);
        proof {
            assert(s@.subrange(lo as int, i as int).push(s@[i as int]) =~= s@.subrange(
                lo as int,
                i + 1,
            ));
        }
        i = i + 1;
    }
    out
}


// ---------------------------------------------------------------------------
// Decimal numbers
// ---------------------------------------------------------------------------

/// Value of a decimal digit character.
pub open spec fn digit_val(c: char) -> int {
    (c as int) - ('0' as int)
}

/// Every character of `s` is a decimal digit.
pub open spec fn all_digits(s: Seq<char>) -> bool {
    forall|i: int| 0 <= i < s.len() ==> is_digit(#[trigger] s[i])
}

/// The number a digit string spells in base ten.
pub open spec fn digits_value(s: Seq<char>) -> int
    decreases s.len(),
{
    if s.len() == 0 {
        0
    } else {
        digits_value(s.drop_last()) * 10 + digit_val(s.last())
    }
}

/// `str::parse::<u64>`: an optional `+`, then one or more digits whose value
/// fits in a `u64`.
pub open spec fn parse_u64(s: Seq<char>) -> Option<int> {
    let d = if s.len() > 0 && s[0] == '+' {
        s.drop_first()
    } else {
        s
    };
    if d.len() > 0 && all_digits(d) && digits_value(d) <= u64::MAX {
        Some(digits_value(d))
    } else {
        None
    }
}

/// `str::parse::<i64>`: an optional sign, then one or more digits whose
/// signed value fits in an `i64`.
pub open spec fn parse_i64(s: Seq<char>) -> Option<int> {
    if s.len() > 0 && s[0] == '-' {
        let d = s.drop_first();
        if d.len() > 0 && all_digits(d) && digits_value(d) <= 0x8000_0000_0000_0000 {
            Some(-digits_value(d))
        } else {
            None
        }
    } else {
        let d = if s.len() > 0 && s[0] == '+' {
            s.drop_first()
        } else {
            s
        };
        if d.len() > 0 && all_digits(d) && digits_value(d) <= i64::MAX {
            Some(digits_value(d))
        } else {
            None
        }
    }
}

proof fn lemma_digits_value_nonneg(s: Seq<char>)
    requires
        all_digits(s),
    ensures
        digits_value(s) >= 0,
    decreases s.len(),
{
    if s.len() > 0 {
        assert(all_digits(s.drop_last())) by {
            assert forall|i: int| 0 <= i < s.drop_last().len() implies is_digit(
                #[trigger] s.drop_last()[i],
            ) by {
                assert(s.drop_last()[i] == s[i]);
            }
        }
        lemma_digits_value_nonneg(s.drop_last());
        assert(is_digit(s[s.len() - 1]));
    }
}

/// Digit strings only grow in value as digits are appended.
proof fn lemma_digits_prefix_le(s: Seq<char>, k: int)
    requires
        all_digits(s),
        0 <= k <= s.len(),
    ensures
        digits_value(s.take(k)) <= digits_value(s),
    decreases s.len() - k,
{
    if k < s.len() {
        lemma_digits_prefix_le(s, k + 1);
        let t = s.take(k + 1);
        assert(t.drop_last() =~= s.take(k));
        assert(all_digits(s.take(k))) by {
            assert forall|i: int| 0 <= i < s.take(k).len() implies is_digit(
                #[trigger] s.take(k)[i],
            ) by {
                assert(s.take(k)[i] == s[i]);
            }
        }
        lemma_digits_value_nonneg(s.take(k));
        assert(is_digit(s[k]));
        assert(t.last() == s[k]);
    } else {
        assert(s.take(k) =~= s);
    }
}

/// Digits of `s` from `from` to the end, as a `u64` when every character is
/// a digit and the value is at most `bound`.
fn digits_at_most(s: &[char], from: usize, bound: u64) -> (r: Option<u64>)
    requires
        from <= s.len(),
        bound >= 9,
    ensures
        ({
            let d = s@.skip(from as int);
            match r {
                Some(v) => all_digits(d) && v == digits_value(d) && v <= bound,
                None => !(all_digits(d) && digits_value(d) <= bound),
            }
        }),
{
    let ghost d = s@.skip(from as int);
    let mut acc: u64 = 0;
    let mut i = from;
    while i < s.len()
        invariant
            from <= i <= s.len(),
            d == s@.skip(from as int),
            all_digits(d.take(i - from)),
            acc == digits_value(d.take(i - from)),
            acc <= bound,
            bound >= 9,
        decreases s.len() - i,
    {
        let c = s[i];
        if !char_is_digit(c) {
            proof {
                assert(d[i - from] == c);
            }
            return None;
        }
        let dv: u64 = (c as u32 - '0' as u32) as u64;
        let ghost t = d.take(i - from + 1);
        proof {
            assert(t.drop_last() =~= d.take(i - from));
            assert(t.last() == c);
            assert(all_digits(t)) by {
                assert forall|k: int| 0 <= k < t.len() implies is_digit(#[trigger] t[k]) by {
                    if k < t.len() - 1 {
                        assert(t[k] == d.take(i - from)[k]);
                    }
                }
            }
        }
        if acc > (bound - dv) / 10 {
            proof {
                assert(digits_value(t) == acc * 10 + dv);
                assert(acc * 10 + dv > bound) by (nonlinear_arith)
                    requires
                        acc > (bound - dv) / 10,
                        dv <= 9,
                        dv <= bound,
                ;
                if all_digits(d) {
                    lemma_digits_prefix_le(d, i - from + 1);
                    assert(d.take(i - from + 1) == t);
                }
            }
            return None;
        }
        proof {
            assert(acc * 10 + dv <= bound) by (nonlinear_arith)
                requires
                    acc <= (bound - dv) / 10,
                    dv <= bound,
            ;
        }
        acc = acc * 10 + dv;
        i = i + 1;
    }
    proof {
        assert(d.take(i - from) =~= d);
    }
    Some(acc)
}

/// `str::parse::<u64>` over characters.
pub fn parse_u64_chars(s: &[char]) -> (r: Option<u64>)
    ensures
        match r {
            Some(v) => parse_u64(s@) == Some(v as int),
            None => parse_u64(s@) is None,
        },
{
    let from: usize = if s.len() > 0 && s[0] == '+' {
        1
    } else {
        0
    };
    proof {
        assert(s@.skip(1) =~= s@.drop_first());
        assert(s@.skip(0) =~= s@);
    }
    if from == s.len() {
        return None;
    }
    digits_at_most(s, from, u64::MAX)
}

/// `str::parse::<i64>` over characters.
pub fn parse_i64_chars(s: &[char]) -> (r: Option<i64>)
    ensures
        match r {
            Some(v) => parse_i64(s@) == Some(v as int),
            None => parse_i64(s@) is None,
        },
{
    proof {
        assert(s@.skip(1) =~= s@.drop_first());
        assert(s@.skip(0) =~= s@);
    }
    if s.len() > 0 && s[0] == '-' {
        if s.len() == 1 {
            return None;
        }
        match digits_at_most(s, 1, 0x8000_0000_0000_0000u64) {
            Some(m) => {
                if m == 0x8000_0000_0000_0000u64 {
                    Some(i64::MIN)
                } else {
                    Some(-(m as i64))
                }
            },
            None => None,
        }
    } else {
        let from: usize = if s.len() > 0 && s[0] == '+' {
            1
        } else {
            0
        };
        if from == s.len() {
            return None;
        }
        match digits_at_most(s, from, i64::MAX as u64) {
            Some(m) => Some(m as i64),
            None => None,
        }
    }
}

/// Decimal spelling of a natural number (no sign, no leading zeros).
pub open spec fn nat_repr(n: nat) -> Seq<char>
    decreases n,
{
    if n < 10 {
        seq![((n + 48) as u32) as char]
    } else {
        nat_repr(n / 10).push((((n % 10) + 48) as u32) as char)
    }
}

/// Decimal spelling of an integer, with `-` for negatives (`Display` of
/// integers).
pub open spec fn int_repr(n: int) -> Seq<char> {
    if n < 0 {
        seq!['-'] + nat_repr((-n) as nat)
    } else {
        nat_repr(n as nat)
    }
}

/// Decimal rendering of a `u64`.
pub fn u64_to_string(n: u64) -> (s: String)
    ensures
        s@ == nat_repr(n as nat),
    decreases n,
{
    if n < 10 {
        let mut s = String::new();
        push_char(&mut s, char_from_u32_ascii((n + 48) as u32));
        s
    } else {
        let mut s = u64_to_string(n / 10);
        push_char(&mut s, char_from_u32_ascii(((n % 10) + 48) as u32));
        s
    }
}

/// Decimal rendering of an `i64`.
pub fn i64_to_string(n: i64) -> (s: String)
    ensures
        s@ == int_repr(n as int),
{
    if n < 0 {
        let m: u64 = if n == i64::MIN {
            0x8000_0000_0000_0000u64
        } else {
            (-n) as u64
        };
        let digits = u64_to_string(m);
        let mut s = String::new();
        push_char(&mut s, '-');
        s.append(digits.as_str());
        s
    } else {
        u64_to_string(n as u64)
    }
}


// ---------------------------------------------------------------------------
// Whitespace trimming and lines
// ---------------------------------------------------------------------------

/// Number of leading whitespace characters.
pub open spec fn ws_prefix(s: Seq<char>) -> int
    decreases s.len(),
{
    if s.len() == 0 {
        0
    } else if char_whitespace(s[0]) {
        1 + ws_prefix(s.drop_first())
    } else {
        0
    }
}

/// Number of trailing whitespace characters.
pub open spec fn ws_suffix(s: Seq<char>) -> int
    decreases s.len(),
{
    if s.len() == 0 {
        0
    } else if char_whitespace(s.last()) {
        1 + ws_suffix(s.drop_last())
    } else {
        0
    }
}

/// `str::trim_start`.
pub open spec fn trim_start(s: Seq<char>) -> Seq<char> {
    s.skip(ws_prefix(s))
}

/// `str::trim_end`.
pub open spec fn trim_end(s: Seq<char>) -> Seq<char> {
    s.take(s.len() - ws_suffix(s))
}

/// `str::trim`.
pub open spec fn trim(s: Seq<char>) -> Seq<char> {
    trim_end(trim_start(s))
}

proof fn lemma_ws_prefix_bound(s: Seq<char>)
    ensures
        0 <= ws_prefix(s) <= s.len(),
    decreases s.len(),
{
    if s.len() > 0 && char_whitespace(s[0]) {
        lemma_ws_prefix_bound(s.drop_first());
    }
}

proof fn lemma_ws_suffix_bound(s: Seq<char>)
    ensures
        0 <= ws_suffix(s) <= s.len(),
    decreases s.len(),
{
    if s.len() > 0 && char_whitespace(s.last()) {
        lemma_ws_suffix_bound(s.drop_last());
    }
}

/// Length of the leading whitespace run of `s`.
fn leading_ws(s: &[char]) -> (n: usize)
    ensures
        n == ws_prefix(s@),
        n <= s.len(),
{
    let mut i: usize = 0;
    proof {
        assert(s@.skip(0) =~= s@);
    }
    while i < s.len() && is_whitespace(s[i])
        invariant
            i <= s.len(),
            ws_prefix(s@) == i + ws_prefix(s@.skip(i as int)),
        decreases s.len() - i,
    {
        proof {
            assert(s@.skip(i as int)[0] == s@[i as int]);
            assert(s@.skip(i as int).drop_first() =~= s@.skip(i + 1));
        }
        i = i + 1;
    }
    proof {
        if i < s.len() {
            assert(s@.skip(i as int)[0] == s@[i as int]);
        }
    }
    i
}

/// Length of the trailing whitespace run of `s`.
fn trailing_ws(s: &[char]) -> (n: usize)
    ensures
        n == ws_suffix(s@),
        n <= s.len(),
{
    let mut i: usize = 0;
    proof {
        assert(s@.take(s.len() as int) =~= s@);
    }
    while i < s.len() && is_whitespace(s[s.len() - 1 - i])
        invariant
            i <= s.len(),
            ws_suffix(s@) == i + ws_suffix(s@.take(s.len() - i)),
        decreases s.len() - i,
    {
        proof {
            let t = s@.take(s.len() - i);
            assert(t.last() == s@[s.len() - 1 - i]);
            assert(t.drop_last() =~= s@.take(s.len() - i - 1));
        }
        i = i + 1;
    }
    proof {
        if i < s.len() {
            assert(s@.take(s.len() - i).last() == s@[s.len() - 1 - i]);
        }
    }
    i
}

/// `str::trim_start` over characters.
pub fn trim_start_chars(s: &[char]) -> (out: Vec<char>)
    ensures
        out@ == trim_start(s@),
{
    let a = leading_ws(s);
    let out = slice_range(s, a, s.len());
    proof {
        assert(out@ =~= s@.skip(a as int));
    }
    out
}

/// `str::trim` over characters.
pub fn trim_chars(s: &[char]) -> (out: Vec<char>)
    ensures
        out@ == trim(s@),
{
    let a = leading_ws(s);
    let rest = slice_range(s, a, s.len());
    proof {
        assert(rest@ =~= s@.skip(a as int));
    }
    let b = trailing_ws(&rest);
    let out = slice_range(&rest, 0, rest.len() - b);
    proof {
        assert(out@ =~= rest@.take(rest@.len() - b));
    }
    out
}

/// `str::trim`.
pub fn trim_str(s: &str) -> (out: String)
    ensures
        out@ == trim(s@),
{
    let v = to_chars(s);
    let t = trim_chars(&v);
    from_chars(&t)
}

/// `x` without one trailing carriage return.
pub open spec fn strip_cr(x: Seq<char>) -> Seq<char> {
    if x.len() > 0 && x.last() == '\r' {
        x.drop_last()
    } else {
        x
    }
}

/// `str::lines`: pieces between `\n`, a `\r` before each `\n` dropped, and
/// no empty piece after a final `\n`.
pub open spec fn lines_of(s: Seq<char>) -> Seq<Seq<char>> {
    let p = split_by(s, seq!['\n']);
    let n = if s.len() == 0 || s.last() == '\n' {
        p.len() - 1
    } else {
        p.len() as int
    };
    Seq::new(
        n as nat,
        |i: int|
            if i < p.len() - 1 {
                strip_cr(p[i])
            } else {
                p[i]
            },
    )
}

proof fn lemma_split_nonempty(s: Seq<char>, set: Seq<char>)
    ensures
        split_by(s, set).len() >= 1,
    decreases s.len(),
{
    lemma_first_in(s, set);
}

/// `str::lines` over characters.
pub fn lines_chars(s: &[char]) -> (out: Vec<Vec<char>>)
    ensures
        views(out@) == lines_of(s@),
{
    let nl = vec!['\n'];
    proof {
        assert(nl@ =~= seq!['\n']);
        lemma_split_nonempty(s@, nl@);
    }
    let pieces = split_chars(s, &nl);
    let n: usize = if s.len() == 0 || s[s.len() - 1] == '\n' {
        pieces.len() - 1
    } else {
        pieces.len()
    };
    let mut out: Vec<Vec<char>> = Vec::new();
    let mut i: usize = 0;
    while i < n
        invariant
            n <= pieces.len(),
            views(pieces@) == split_by(s@, seq!['\n']),
            n == lines_of(s@).len(),
            i <= n,
            views(out@) == lines_of(s@).take(i as int),
        decreases n - i,
    {
        let piece = &pieces[i];
        let line = if i + 1 < pieces.len() && piece.len() > 0 && piece[piece.len() - 1] == '\r' {
            slice_range(piece, 0, piece.len() - 1)
        } else {
            slice_range(piece, 0, piece.len())
        };
        proof {
            assert(views(pieces@)[i as int] == piece@);
            assert(line@ == lines_of(s@)[i as int]) by {
                if i + 1 < pieces.len() && piece@.len() > 0 && piece@.last() == '\r' {
                    assert(line@ =~= piece@.drop_last());
                } else {
                    assert(line@ =~= piece@);
                }
            }
        }
        let ghost before = out@;
        out.push(line);
        proof {
            assert(views(out@) =~= views(before).push(line@));
            assert(lines_of(s@).take(i + 1) =~= lines_of(s@).take(i as int).push(lines_of(s@)[i as int]));
        }
        i = i + 1;
    }
    proof {
        assert(lines_of(s@).take(n as int) =~= lines_of(s@));
    }
    out
}

/// Whether every character of `s` is whitespace (so `trim` leaves nothing).
pub fn is_blank(s: &[char]) -> (b: bool)
    ensures
        b == (trim(s@).len() == 0),
{
    let t = trim_chars(s);
    t.len() == 0
}

/// The character views of a list of strings.
pub open spec fn string_views(v: Seq<String>) -> Seq<Seq<char>> {
    v.map_values(|x: String| x@)
}

/// Whether `list` holds a string equal to `s`.
pub fn list_has(list: &[String], s: &str) -> (b: bool)
    ensures
        b == string_views(list@).contains(s@),
{
    let mut i: usize = 0;
    while i < list.len()
        invariant
            i <= list.len(),
            forall|k: int| 0 <= k < i ==> list@[k]@ != s@,
        decreases list.len() - i,
    {
        if str_eq(list[i].as_str(), s) {
            proof {
                assert(string_views(list@)[i as int] == s@);
            }
            return true;
        }
        i = i + 1;
    }
    proof {
        if string_views(list@).contains(s@) {
            let k = choose|k: int| 0 <= k < string_views(list@).len() && string_views(list@)[k] == s@;
            assert(list@[k]@ == s@);
        }
    }
    false
}

/// Whether the first `n` strings of `list` hold one equal to `s`.
pub fn list_has_before(list: &[String], n: usize, s: &str) -> (b: bool)
    requires
        n <= list.len(),
    ensures
        b == string_views(list@).take(n as int).contains(s@),
{
    let mut i: usize = 0;
    while i < n
        invariant
            i <= n <= list.len(),
            forall|k: int| 0 <= k < i ==> list@[k]@ != s@,
        decreases n - i,
    {
        if str_eq(list[i].as_str(), s) {
            proof {
                assert(string_views(list@).take(n as int)[i as int] == s@);
            }
            return true;
        }
        i = i + 1;
    }
    proof {
        if string_views(list@).take(n as int).contains(s@) {
            let k = choose|k: int| 0 <= k < n && string_views(list@).take(n as int)[k] == s@;
            assert(list@[k]@ == s@);
        }
    }
    false
}

/// The bytes `lo..hi` of `b`.
pub fn byte_range(b: &[u8], lo: usize, hi: usize) -> (out: Vec<u8>)
    requires
        lo <= hi <= b.len(),
    ensures
        out@ == b@.subrange(lo as int, hi as int),
{
    let mut out: Vec<u8> = Vec::new();
    let mut i: usize = lo;
    while i < hi
        invariant
            lo <= i <= hi <= b.len(),
            out@ == b@.subrange(lo as int, i as int),
        decreases hi - i,
    {
        out.push(b[i]);
        proof {
            assert(b@.subrange(lo as int, i + 1) =~= b@.subrange(lo as int, i as int).push(b@[i as int]));
        }
        i = i + 1;
    }
    out
}

/// Whether `v` holds `x`.
pub fn has_i64(v: &[i64], x: i64) -> (b: bool)
    ensures
        b == v@.contains(x),
{
    let mut i: usize = 0;
    while i < v.len()
        invariant
            i <= v.len(),
            forall|k: int| 0 <= k < i ==> v@[k] != x,
        decreases v.len() - i,
    {
        if v[i] == x {
            return true;
        }
        i = i + 1;
    }
    false
}

/// `s` with every character mapped through `ascii_lower`.
pub open spec fn ascii_lower_seq(s: Seq<char>) -> Seq<char> {
    s.map_values(|c: char| ascii_lower(c))
}

} // verus!
