//! The first result a check gives over a sequence.
use vstd::prelude::*;

verus! {

/// The first `Some` that `f` gives over `s`, in order.
pub open spec fn first_some<A, B>(s: Seq<A>, f: spec_fn(A) -> Option<B>) -> Option<B>
    decreases s.len(),
{
    if s.len() == 0 {
        None
    } else {
        match first_some(s.drop_last(), f) {
            Some(b) => Some(b),
            None => f(s.last()),
        }
    }
}

/// Once a prefix has a first result, the whole sequence has the same one.
pub proof fn lemma_first_some_prefix<A, B>(s: Seq<A>, f: spec_fn(A) -> Option<B>, k: int)
    requires
        0 <= k <= s.len(),
        first_some(s.take(k), f) is Some,
    ensures
        first_some(s, f) == first_some(s.take(k), f),
    decreases s.len() - k,
{
    if k < s.len() {
        assert(s.take(k + 1).drop_last() =~= s.take(k));
        lemma_first_some_prefix(s, f, k + 1);
    } else {
        assert(s.take(k) =~= s);
    }
}

/// One step of `first_some` over a growing prefix.
pub proof fn lemma_first_some_step<A, B>(s: Seq<A>, f: spec_fn(A) -> Option<B>, k: int)
    requires
        0 <= k < s.len(),
        first_some(s.take(k), f) is None,
    ensures
        first_some(s.take(k + 1), f) == f(s[k]),
{
    assert(s.take(k + 1).drop_last() =~= s.take(k));
}

/// With no result for any of the first `j` items, that prefix has none.
pub proof fn lemma_first_some_none<A, B>(s: Seq<A>, f: spec_fn(A) -> Option<B>, j: int)
    requires
        0 <= j <= s.len(),
        forall|k: int| 0 <= k < j ==> f(#[trigger] s[k]) is None,
    ensures
        first_some(s.take(j), f) is None,
    decreases j,
{
    if j > 0 {
        lemma_first_some_none(s, f, j - 1);
        assert(s.take(j).drop_last() =~= s.take(j - 1));
        assert(s.take(j).last() == s[j - 1]);
    }
}

/// The first result is that of the first item that gives one.
pub proof fn lemma_first_some_at<A, B>(s: Seq<A>, f: spec_fn(A) -> Option<B>, j: int)
    requires
        0 <= j < s.len(),
        f(s[j]) is Some,
        forall|k: int| 0 <= k < j ==> f(#[trigger] s[k]) is None,
    ensures
        first_some(s, f) == f(s[j]),
{
    lemma_first_some_none(s, f, j);
    lemma_first_some_step(s, f, j);
    lemma_first_some_prefix(s, f, j + 1);
}

} // verus!
