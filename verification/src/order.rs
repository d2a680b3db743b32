//! Stable sorting and de-duplication by `(integer, text)` keys.
//!
//! Text compares lexicographically by character; Rust's `str` ordering
//! compares UTF-8 bytes, which orders strings exactly as their characters.
use vstd::prelude::*;

verus! {


/// Lexicographic "strictly before" on character sequences.
pub open spec fn text_lt(a: Seq<char>, b: Seq<char>) -> bool
    decreases a.len(),
{
    if a.len() == 0 {
        b.len() > 0
    } else if b.len() == 0 {
        false
    } else if a[0] != b[0] {
        a[0] < b[0]
    } else {
        text_lt(a.drop_first(), b.drop_first())
    }
}

/// Sort key: an integer, then text.
pub open spec fn key_lt(a: (int, Seq<char>), b: (int, Seq<char>)) -> bool {
    a.0 < b.0 || (a.0 == b.0 && text_lt(a.1, b.1))
}

/// `a` sorts no later than `b`.
pub open spec fn key_le(a: (int, Seq<char>), b: (int, Seq<char>)) -> bool {
    !key_lt(b, a)
}

proof fn lemma_text_trichotomy(a: Seq<char>, b: Seq<char>)
    ensures
        text_lt(a, b) || text_lt(b, a) || a == b,
        !(text_lt(a, b) && text_lt(b, a)),
    decreases a.len(),
{
    if a.len() > 0 && b.len() > 0 && a[0] == b[0] {
        lemma_text_trichotomy(a.drop_first(), b.drop_first());
        if a.drop_first() == b.drop_first() {
            assert(a =~= seq![a[0]] + a.drop_first());
            assert(b =~= seq![b[0]] + b.drop_first());
        }
    } else if a.len() == 0 && b.len() == 0 {
        assert(a =~= b);
    }
}

proof fn lemma_text_trans(a: Seq<char>, b: Seq<char>, c: Seq<char>)
    requires
        text_lt(a, b),
        text_lt(b, c),
    ensures
        text_lt(a, c),
    decreases a.len(),
{
    if a.len() > 0 && b.len() > 0 && c.len() > 0 && a[0] == b[0] && b[0] == c[0] {
        lemma_text_trans(a.drop_first(), b.drop_first(), c.drop_first());
    }
}

/// Key order is a strict total order.
pub proof fn lemma_key_order(a: (int, Seq<char>), b: (int, Seq<char>), c: (int, Seq<char>))
    ensures
        key_lt(a, b) || key_lt(b, a) || a == b,
        !(key_lt(a, b) && key_lt(b, a)),
        key_lt(a, b) && key_lt(b, c) ==> key_lt(a, c),
{
    lemma_text_trichotomy(a.1, b.1);
    if key_lt(a, b) && key_lt(b, c) && a.0 == b.0 && b.0 == c.0 {
        lemma_text_trans(a.1, b.1, c.1);
    }
}

/// Whether `a` comes strictly before `b`, over characters.
pub fn chars_lt(a: &[char], b: &[char]) -> (r: bool)
    ensures
        r == text_lt(a@, b@),
{
    let mut i: usize = 0;
    proof {
        assert(a@.skip(0) =~= a@);
        assert(b@.skip(0) =~= b@);
        assert(a@.take(0) =~= b@.take(0));
    }
    while i < a.len() && i < b.len()
        invariant
            i <= a.len(),
            i <= b.len(),
            a@.take(i as int) == b@.take(i as int),
            text_lt(a@, b@) == text_lt(a@.skip(i as int), b@.skip(i as int)),
        decreases a.len() - i,
    {
        if a[i] != b[i] {
            proof {
                let sa = a@.skip(i as int);
                let sb = b@.skip(i as int);
                assert(sa[0] == a@[i as int]);
                assert(sb[0] == b@[i as int]);
            }
            return a[i] < b[i];
        }
        proof {
            let sa = a@.skip(i as int);
            let sb = b@.skip(i as int);
            assert(sa.drop_first() =~= a@.skip(i + 1));
            assert(sb.drop_first() =~= b@.skip(i + 1));
            assert(a@.take(i + 1) =~= a@.take(i as int).push(a@[i as int]));
            assert(b@.take(i + 1) =~= b@.take(i as int).push(b@[i as int]));
        }
        i = i + 1;
    }
    i < b.len()
}

/// An integer-then-text sort key.
pub struct SortKey {
    pub num: i64,
    pub text: Vec<char>,
}

impl SortKey {
    pub open spec fn view_key(&self) -> (int, Seq<char>) {
        (self.num as int, self.text@)
    }
}

/// Whether key `a` comes strictly before key `b`.
pub fn key_before(a: &SortKey, b: &SortKey) -> (r: bool)
    ensures
        r == key_lt(a.view_key(), b.view_key()),
{
    a.num < b.num || (a.num == b.num && chars_lt(&a.text, &b.text))
}

/// `s` is in non-decreasing key order.
pub open spec fn keys_sorted(s: Seq<(int, Seq<char>)>) -> bool {
    forall|i: int, j: int| 0 <= i < j < s.len() ==> key_le(s[i], s[j])
}

/// Index of the first least key.
fn min_index(keys: &Vec<SortKey>) -> (m: usize)
    requires
        keys.len() > 0,
    ensures
        m < keys.len(),
        forall|j: int| 0 <= j < keys.len() ==> key_le(keys@[m as int].view_key(), #[trigger] keys@[j].view_key()),
        forall|j: int| 0 <= j < m ==> key_lt(keys@[m as int].view_key(), #[trigger] keys@[j].view_key()),
{
    let mut best: usize = 0;
    let mut k: usize = 1;
    proof {
        lemma_key_order(keys@[0].view_key(), keys@[0].view_key(), keys@[0].view_key());
    }
    while k < keys.len()
        invariant
            best < k <= keys.len(),
            forall|j: int| 0 <= j < k ==> key_le(keys@[best as int].view_key(), #[trigger] keys@[j].view_key()),
            forall|j: int| 0 <= j < best ==> key_lt(keys@[best as int].view_key(), #[trigger] keys@[j].view_key()),
        decreases keys.len() - k,
    {
        if key_before(&keys[k], &keys[best]) {
            proof {
                assert forall|j: int| 0 <= j < k + 1 implies key_le(keys@[k as int].view_key(), #[trigger] keys@[j].view_key()) by {
                    lemma_key_order(keys@[k as int].view_key(), keys@[best as int].view_key(), keys@[j].view_key());
                    lemma_key_order(keys@[j].view_key(), keys@[k as int].view_key(), keys@[best as int].view_key());
                }
                assert forall|j: int| 0 <= j < k implies key_lt(keys@[k as int].view_key(), #[trigger] keys@[j].view_key()) by {
                    lemma_key_order(keys@[k as int].view_key(), keys@[best as int].view_key(), keys@[j].view_key());
                    lemma_key_order(keys@[best as int].view_key(), keys@[j].view_key(), keys@[k as int].view_key());
                }
            }
            best = k;
        } else {
            proof {
                lemma_key_order(keys@[k as int].view_key(), keys@[best as int].view_key(), keys@[k as int].view_key());
            }
        }
        k = k + 1;
    }
    best
}

/// `p` lists each of `0..n` exactly once.
pub open spec fn is_perm(p: Seq<int>, n: int) -> bool {
    &&& p.len() == n
    &&& forall|i: int| 0 <= i < p.len() ==> 0 <= #[trigger] p[i] < n
    &&& forall|i: int, j: int| 0 <= i < j < p.len() ==> p[i] != p[j]
}

/// `out` is `items` reordered by `p` into non-decreasing key order, with
/// equal keys kept in their input order (a stable sort).
pub open spec fn stable_sort_of<T>(out: Seq<T>, items: Seq<T>, p: Seq<int>, key: spec_fn(T) -> (int, Seq<char>)) -> bool {
    &&& is_perm(p, items.len() as int)
    &&& out.len() == items.len()
    &&& forall|i: int| 0 <= i < out.len() ==> #[trigger] out[i] == items[p[i]]
    &&& keys_sorted(out.map_values(key))
    &&& forall|i: int, j: int| 0 <= i < j < out.len() && key(out[i]) == key(out[j]) ==> p[i] < p[j]
}

/// Stably sorts `items` by the keys given for them: the result holds the
/// same items in non-decreasing key order, equal keys in input order. The
/// ghost result is the permutation applied.
pub fn sort_by_keys<T>(items: Vec<T>, keys: Vec<SortKey>, Ghost(key): Ghost<spec_fn(T) -> (int, Seq<char>)>) -> (out: (Vec<T>, Ghost<Seq<int>>))
    requires
        items.len() == keys.len(),
        forall|k: int| 0 <= k < items.len() ==> #[trigger] keys@[k].view_key() == key(items@[k]),
    ensures
        stable_sort_of(out.0@, items@, out.1@, key),
{
    let ghost orig = items@;
    let ghost n = items.len() as int;
    let mut rest_items = items;
    let mut rest_keys = keys;
    let mut out_items: Vec<T> = Vec::new();
    let ghost mut rest_idx: Seq<int> = Seq::new(n as nat, |i: int| i);
    let ghost mut out_idx: Seq<int> = Seq::empty();
    while rest_keys.len() > 0
        invariant
            rest_items.len() == rest_keys.len() == rest_idx.len(),
            out_items.len() == out_idx.len(),
            out_items.len() + rest_items.len() == n,
            n == orig.len(),
            forall|k: int| 0 <= k < rest_items.len() ==> #[trigger] rest_keys@[k].view_key() == key(rest_items@[k]),
            forall|k: int| 0 <= k < rest_items.len() ==> #[trigger] rest_items@[k] == orig[rest_idx[k]],
            forall|k: int| 0 <= k < out_items.len() ==> #[trigger] out_items@[k] == orig[out_idx[k]],
            forall|k: int| 0 <= k < rest_idx.len() ==> 0 <= #[trigger] rest_idx[k] < n,
            forall|k: int| 0 <= k < out_idx.len() ==> 0 <= #[trigger] out_idx[k] < n,
            forall|a: int, b: int| 0 <= a < b < rest_idx.len() ==> rest_idx[a] < rest_idx[b],
            forall|a: int, b: int| 0 <= a < b < out_idx.len() ==> out_idx[a] != out_idx[b],
            forall|a: int, b: int| 0 <= a < out_idx.len() && 0 <= b < rest_idx.len() ==> out_idx[a] != rest_idx[b],
            keys_sorted(out_items@.map_values(key)),
            forall|a: int, b: int|
                0 <= a < out_items.len() && 0 <= b < rest_items.len() ==> key_le(
                    key(#[trigger] out_items@[a]),
                    key(#[trigger] rest_items@[b]),
                ),
            forall|a: int, b: int|
                0 <= a < out_items.len() && 0 <= b < rest_items.len() && key(out_items@[a]) == key(rest_items@[b])
                    ==> #[trigger] out_idx[a] < #[trigger] rest_idx[b],
            forall|a: int, b: int| 0 <= a < b < out_items.len() && key(out_items@[a]) == key(out_items@[b]) ==> out_idx[a] < out_idx[b],
        decreases rest_keys.len(),
    {
        let m = min_index(&rest_keys);
        let ghost ri = rest_items@;
        let ghost rk = rest_keys@;
        let ghost oi = out_items@;
        let ghost rx = rest_idx;
        let ghost ox = out_idx;
        let it = rest_items.remove(m);
        let _ky = rest_keys.remove(m);
        proof {
            assert(ri[m as int] == it);
            assert(key(it) == rk[m as int].view_key());
            rest_idx = rx.remove(m as int);
            out_idx = ox.push(rx[m as int]);
        }
        out_items.push(it);
        proof {
            assert forall|k: int| 0 <= k < rest_items.len() implies #[trigger] rest_keys@[k].view_key() == key(rest_items@[k]) by {
                if k < m {
                    assert(rest_keys@[k] == rk[k] && rest_items@[k] == ri[k]);
                } else {
                    assert(rest_keys@[k] == rk[k + 1] && rest_items@[k] == ri[k + 1]);
                }
            }
            assert forall|k: int| 0 <= k < rest_items.len() implies #[trigger] rest_items@[k] == orig[rest_idx[k]] by {
                if k < m {
                    assert(rest_items@[k] == ri[k]);
                } else {
                    assert(rest_items@[k] == ri[k + 1]);
                }
            }
            assert forall|k: int| 0 <= k < out_items.len() implies #[trigger] out_items@[k] == orig[out_idx[k]] by {
                if k < oi.len() {
                    assert(out_items@[k] == oi[k]);
                }
            }
            assert forall|a: int, b: int|
                0 <= a < out_items.len() && 0 <= b < rest_items.len() implies key_le(
                    key(#[trigger] out_items@[a]),
                    key(#[trigger] rest_items@[b]),
                ) by {
                let bb = if b < m { b } else { b + 1 };
                assert(rest_items@[b] == ri[bb]);
                assert(key(ri[bb]) == rk[bb].view_key());
                if a < oi.len() {
                    assert(out_items@[a] == oi[a]);
                }
            }
            assert forall|a: int, b: int|
                0 <= a < out_items.len() && 0 <= b < rest_items.len() && key(out_items@[a]) == key(rest_items@[b])
                    implies #[trigger] out_idx[a] < #[trigger] rest_idx[b] by {
                let bb = if b < m { b } else { b + 1 };
                assert(rest_items@[b] == ri[bb]);
                assert(rest_idx[b] == rx[bb]);
                assert(key(ri[bb]) == rk[bb].view_key());
                if a < oi.len() {
                    assert(out_items@[a] == oi[a]);
                } else {
                    if bb < m {
                        assert(key_lt(rk[m as int].view_key(), rk[bb].view_key()));
                        lemma_key_order(rk[m as int].view_key(), rk[bb].view_key(), rk[bb].view_key());
                    }
                }
            }
            assert forall|a: int, b: int| 0 <= a < b < out_items.len() && key(out_items@[a]) == key(out_items@[b]) implies out_idx[a] < out_idx[b] by {
                if b < oi.len() {
                    assert(out_items@[a] == oi[a]);
                    assert(out_items@[b] == oi[b]);
                } else {
                    assert(out_items@[a] == oi[a]);
                    assert(out_items@[b] == ri[m as int]);
                }
            }
            assert(keys_sorted(out_items@.map_values(key))) by {
                assert forall|i: int, j: int| 0 <= i < j < out_items@.map_values(key).len() implies key_le(
                    out_items@.map_values(key)[i],
                    out_items@.map_values(key)[j],
                ) by {
                    if j == oi.len() {
                        assert(out_items@[i] == oi[i]);
                        assert(out_items@[j] == it);
                        assert(key(it) == key(ri[m as int]));
                    } else {
                        assert(out_items@.map_values(key)[i] == oi.map_values(key)[i]);
                        assert(out_items@.map_values(key)[j] == oi.map_values(key)[j]);
                    }
                }
            }
        }
    }
    (out_items, Ghost(out_idx))
}

/// Drops every item whose key text equals the key text of the item just
/// before it (`Vec::dedup_by` comparing that text), given that text.
pub open spec fn dedup_text<T>(prev: Option<Seq<char>>, s: Seq<T>, key: spec_fn(T) -> (int, Seq<char>)) -> Seq<T>
    decreases s.len(),
{
    if s.len() == 0 {
        s
    } else if prev == Some(key(s[0]).1) {
        dedup_text(Some(key(s[0]).1), s.drop_first(), key)
    } else {
        seq![s[0]] + dedup_text(Some(key(s[0]).1), s.drop_first(), key)
    }
}

/// Every item `dedup_text` keeps is an item of `s`.
pub proof fn lemma_dedup_text_from<T>(prev: Option<Seq<char>>, s: Seq<T>, key: spec_fn(T) -> (int, Seq<char>))
    ensures
        forall|k: int|
            0 <= k < dedup_text(prev, s, key).len() ==> exists|i: int|
                0 <= i < s.len() && #[trigger] dedup_text(prev, s, key)[k] == s[i],
    decreases s.len(),
{
    if s.len() > 0 {
        let rest = s.drop_first();
        let np = Some(key(s[0]).1);
        lemma_dedup_text_from(np, rest, key);
        let d = dedup_text(prev, s, key);
        let t = dedup_text(np, rest, key);
        assert forall|k: int| 0 <= k < d.len() implies exists|i: int| 0 <= i < s.len() && #[trigger] d[k] == s[i] by {
            if prev == np {
                assert(d == t);
                let i = choose|i: int| 0 <= i < rest.len() && #[trigger] t[k] == rest[i];
                assert(d[k] == s[i + 1]);
            } else if k == 0 {
                assert(d[0] == s[0]);
            } else {
                assert(d[k] == t[k - 1]);
                let i = choose|i: int| 0 <= i < rest.len() && #[trigger] t[k - 1] == rest[i];
                assert(d[k] == s[i + 1]);
            }
        }
    }
}

/// The view of an optional character vector.
pub open spec fn opt_chars(p: Option<Vec<char>>) -> Option<Seq<char>> {
    match p {
        Some(v) => Some(v@),
        None => None,
    }
}

/// Removes consecutive items whose key text repeats, keeping the first of
/// each run.
pub fn dedup_by_text<T>(items: Vec<T>, keys: Vec<SortKey>, Ghost(key): Ghost<spec_fn(T) -> (int, Seq<char>)>) -> (out: Vec<T>)
    requires
        items.len() == keys.len(),
        forall|k: int| 0 <= k < items.len() ==> #[trigger] keys@[k].view_key() == key(items@[k]),
    ensures
        out@ == dedup_text(None, items@, key),
{
    let ghost whole = items@;
    let mut rest_items = items;
    let mut rest_keys = keys;
    let mut out_items: Vec<T> = Vec::new();
    let mut prev: Option<Vec<char>> = None;
    while rest_keys.len() > 0
        invariant
            rest_items.len() == rest_keys.len(),
            forall|k: int| 0 <= k < rest_items.len() ==> #[trigger] rest_keys@[k].view_key() == key(rest_items@[k]),
            out_items@ + dedup_text(opt_chars(prev), rest_items@, key) == dedup_text(None, whole, key),
        decreases rest_keys.len(),
    {
        let ghost ri = rest_items@;
        let ghost rk = rest_keys@;
        let ghost oi = out_items@;
        let it = rest_items.remove(0);
        let ky = rest_keys.remove(0);
        proof {
            assert(ri.remove(0) =~= ri.drop_first());
            assert(key(it) == rk[0].view_key());
            assert forall|k: int| 0 <= k < rest_items.len() implies #[trigger] rest_keys@[k].view_key() == key(rest_items@[k]) by {
                assert(rest_keys@[k] == rk[k + 1] && rest_items@[k] == ri[k + 1]);
            }
        }
        let same = match &prev {
            Some(p) => chars_eq(p, &ky.text),
            None => false,
        };
        let text = copy_chars(&ky.text);
        if !same {
            out_items.push(it);
            proof {
                let tail = dedup_text(Some(key(ri[0]).1), rest_items@, key);
                assert(oi.push(ri[0]) + tail =~= oi + (seq![ri[0]] + tail));
            }
        }
        prev = Some(text);
    }
    proof {
        assert(rest_items@ =~= Seq::<T>::empty());
        assert(out_items@ + Seq::<T>::empty() =~= out_items@);
    }
    out_items
}

/// Whether two character slices are equal.
pub fn chars_eq(a: &[char], b: &[char]) -> (r: bool)
    ensures
        r == (a@ == b@),
{
    if a.len() != b.len() {
        return false;
    }
    let mut i: usize = 0;
    while i < a.len()
        invariant
            i <= a.len() == b.len(),
            forall|k: int| 0 <= k < i ==> a@[k] == b@[k],
        decreases a.len() - i,
    {
        if a[i] != b[i] {
            return false;
        }
        i = i + 1;
    }
    proof {
        assert(a@ =~= b@);
    }
    true
}

/// An owned copy of a character slice.
pub fn copy_chars(a: &[char]) -> (out: Vec<char>)
    ensures
        out@ == a@,
{
    let mut out: Vec<char> = Vec::new();
    let mut i: usize = 0;
    while i < a.len()
        invariant
            i <= a.len(),
            out@ == a@.take(i as int),
        decreases a.len() - i,
    {
        out.push(a[i]);
        proof {
            assert(a@.take(i as int).push(a@[i as int]) =~= a@.take(i + 1));
        }
        i = i + 1;
    }
    proof {
        assert(a@.take(a.len() as int) =~= a@);
    }
    out
}

} // verus!
