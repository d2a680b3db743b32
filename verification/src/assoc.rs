//! Association lists keyed by text, kept in ascending key order with each
//! key once: the ordered-map model behind named signal sets and baselines.
use vstd::prelude::*;

use crate::order::{lemma_key_order, text_lt};

verus! {

/// Keys strictly ascending.
pub open spec fn keys_ascending<V>(s: Seq<(Seq<char>, V)>) -> bool {
    forall|i: int, j: int| 0 <= i < j < s.len() ==> text_lt(s[i].0, s[j].0)
}

/// The value stored under `key`, if any.
pub open spec fn assoc_lookup<V>(s: Seq<(Seq<char>, V)>, key: Seq<char>) -> Option<V>
    decreases s.len(),
{
    if s.len() == 0 {
        None
    } else if s[0].0 == key {
        Some(s[0].1)
    } else {
        assoc_lookup(s.drop_first(), key)
    }
}

/// `s` with `key` set to `names`: replaced in place when present, otherwise
/// inserted before the first larger name.
pub open spec fn assoc_insert<V>(s: Seq<(Seq<char>, V)>, key: Seq<char>, names: V) -> Seq<(Seq<char>, V)>
    decreases s.len(),
{
    if s.len() == 0 {
        seq![(key, names)]
    } else if s[0].0 == key {
        seq![(key, names)] + s.drop_first()
    } else if text_lt(key, s[0].0) {
        seq![(key, names)] + s
    } else {
        seq![s[0]] + assoc_insert(s.drop_first(), key, names)
    }
}

pub proof fn lemma_assoc_insert_sorted<V>(s: Seq<(Seq<char>, V)>, key: Seq<char>, names: V)
    requires
        keys_ascending(s),
    ensures
        keys_ascending(assoc_insert(s, key, names)),
        assoc_insert(s, key, names).len() > 0,
        forall|i: int| 0 <= i < assoc_insert(s, key, names).len() ==> (#[trigger] assoc_insert(s, key, names)[i]).0 == key || exists|j: int| 0 <= j < s.len() && s[j].0 == assoc_insert(s, key, names)[i].0,
    decreases s.len(),
{
    let r = assoc_insert(s, key, names);
    if s.len() == 0 {
    } else if s[0].0 == key {
        assert forall|i: int, j: int| 0 <= i < j < r.len() implies text_lt(r[i].0, r[j].0) by {
            if i == 0 {
                assert(r[j] == s[j]);
                assert(text_lt(s[0].0, s[j].0));
            } else {
                assert(r[i] == s[i] && r[j] == s[j]);
            }
        }
        assert forall|i: int| 0 <= i < r.len() implies (#[trigger] r[i]).0 == key || exists|j: int| 0 <= j < s.len() && s[j].0 == r[i].0 by {
            if i > 0 {
                assert(r[i] == s[i]);
            }
        }
    } else if text_lt(key, s[0].0) {
        assert forall|i: int, j: int| 0 <= i < j < r.len() implies text_lt(r[i].0, r[j].0) by {
            if i == 0 {
                assert(r[j] == s[j - 1]);
                if j > 1 {
                    assert(text_lt(s[0].0, s[j - 1].0));
                    lemma_key_order((0, key), (0, s[0].0), (0, s[j - 1].0));
                }
            } else {
                assert(r[i] == s[i - 1] && r[j] == s[j - 1]);
            }
        }
        assert forall|i: int| 0 <= i < r.len() implies (#[trigger] r[i]).0 == key || exists|j: int| 0 <= j < s.len() && s[j].0 == r[i].0 by {
            if i > 0 {
                assert(r[i] == s[i - 1]);
            }
        }
    } else {
        let t = s.drop_first();
        assert(keys_ascending(t)) by {
            assert forall|i: int, j: int| 0 <= i < j < t.len() implies text_lt(t[i].0, t[j].0) by {
                assert(t[i] == s[i + 1] && t[j] == s[j + 1]);
            }
        }
        lemma_assoc_insert_sorted(t, key, names);
        let rt = assoc_insert(t, key, names);
        assert(r == seq![s[0]] + rt);
        lemma_key_order((0, key), (0, s[0].0), (0, s[0].0));
        assert forall|i: int, j: int| 0 <= i < j < r.len() implies text_lt(r[i].0, r[j].0) by {
            if i == 0 {
                assert(r[j] == rt[j - 1]);
                if rt[j - 1].0 == key {
                } else {
                    let k = choose|k: int| 0 <= k < t.len() && t[k].0 == rt[j - 1].0;
                    assert(t[k] == s[k + 1]);
                }
            } else {
                assert(r[i] == rt[i - 1] && r[j] == rt[j - 1]);
            }
        }
        assert forall|i: int| 0 <= i < r.len() implies (#[trigger] r[i]).0 == key || exists|j: int| 0 <= j < s.len() && s[j].0 == r[i].0 by {
            if i > 0 {
                assert(r[i] == rt[i - 1]);
                if rt[i - 1].0 != key {
                    let k = choose|k: int| 0 <= k < t.len() && t[k].0 == rt[i - 1].0;
                    assert(t[k] == s[k + 1]);
                }
            }
        }
    }
}

pub proof fn lemma_assoc_insert_at<V>(s: Seq<(Seq<char>, V)>, key: Seq<char>, names: V, p: int)
    requires
        keys_ascending(s),
        0 <= p <= s.len(),
        forall|i: int| 0 <= i < p ==> text_lt(#[trigger] s[i].0, key),
        p < s.len() ==> !text_lt(s[p].0, key),
    ensures
        p < s.len() && s[p].0 == key ==> assoc_insert(s, key, names) == s.update(p, (key, names)),
        !(p < s.len() && s[p].0 == key) ==> assoc_insert(s, key, names) == s.take(p).push((key, names)) + s.skip(p),
    decreases p,
{
    if p == 0 {
        if s.len() > 0 && s[0].0 != key {
            lemma_key_order((0, key), (0, s[0].0), (0, key));
            assert(s.take(0).push((key, names)) + s.skip(0) =~= seq![(key, names)] + s);
        }
        if s.len() > 0 && s[0].0 == key {
            assert(seq![(key, names)] + s.drop_first() =~= s.update(0, (key, names)));
        }
        if s.len() == 0 {
            assert(s.take(0).push((key, names)) + s.skip(0) =~= seq![(key, names)]);
        }
    } else {
        let t = s.drop_first();
        assert(keys_ascending(t)) by {
            assert forall|i: int, j: int| 0 <= i < j < t.len() implies text_lt(t[i].0, t[j].0) by {
                assert(t[i] == s[i + 1] && t[j] == s[j + 1]);
            }
        }
        assert forall|i: int| 0 <= i < p - 1 implies text_lt(#[trigger] t[i].0, key) by {
            assert(t[i] == s[i + 1]);
        }
        lemma_assoc_insert_at(t, key, names, p - 1);
        assert(text_lt(s[0].0, key));
        lemma_key_order((0, key), (0, s[0].0), (0, key));
        assert(s[0].0 != key);
        if p < s.len() && s[p].0 == key {
            assert(seq![s[0]] + t.update(p - 1, (key, names)) =~= s.update(p, (key, names)));
        } else {
            assert(seq![s[0]] + (t.take(p - 1).push((key, names)) + t.skip(p - 1)) =~= s.take(p).push((key, names)) + s.skip(p));
        }
    }
}

pub proof fn lemma_assoc_lookup_first<V>(s: Seq<(Seq<char>, V)>, key: Seq<char>, i: int)
    requires
        0 <= i < s.len(),
        s[i].0 == key,
        forall|j: int| 0 <= j < i ==> s[j].0 != key,
    ensures
        assoc_lookup(s, key) == Some(s[i].1),
    decreases i,
{
    if i > 0 {
        lemma_assoc_lookup_first(s.drop_first(), key, i - 1);
    }
}

pub proof fn lemma_assoc_lookup_none<V>(s: Seq<(Seq<char>, V)>, key: Seq<char>)
    requires
        forall|j: int| 0 <= j < s.len() ==> s[j].0 != key,
    ensures
        assoc_lookup(s, key) is None,
    decreases s.len(),
{
    if s.len() > 0 {
        lemma_assoc_lookup_none(s.drop_first(), key);
    }
}

/// Reading a key after setting it gives the new value; every other key reads
/// as before.
pub proof fn lemma_assoc_insert_lookup<V>(s: Seq<(Seq<char>, V)>, key: Seq<char>, value: V, q: Seq<char>)
    ensures
        assoc_lookup(assoc_insert(s, key, value), q) == (if q == key {
            Some(value)
        } else {
            assoc_lookup(s, q)
        }),
    decreases s.len(),
{
    let r = assoc_insert(s, key, value);
    let want = if q == key {
        Some(value)
    } else {
        assoc_lookup(s, q)
    };
    if s.len() == 0 {
        assert(r =~= seq![(key, value)]);
        assert(r.drop_first() =~= Seq::<(Seq<char>, V)>::empty());
        assert(assoc_lookup(r.drop_first(), q) is None);
        assert(assoc_lookup(s, q) is None);
        assert(assoc_lookup(r, q) == want);
    } else if s[0].0 == key {
        assert(r[0] == (key, value));
        assert(r.drop_first() =~= s.drop_first());
        assert(assoc_lookup(r, q) == want);
    } else if text_lt(key, s[0].0) {
        assert(r[0] == (key, value));
        assert(r.drop_first() =~= s);
        assert(assoc_lookup(r, q) == want);
    } else {
        lemma_assoc_insert_lookup(s.drop_first(), key, value, q);
        assert(r[0] == s[0]);
        assert(r.drop_first() =~= assoc_insert(s.drop_first(), key, value));
        assert(assoc_lookup(r, q) == want);
    }
}

} // verus!
