//! Searching sequences by a predicate.
use vstd::prelude::*;

verus! {

/// The index of the first element that satisfies `p`.
pub open spec fn first_index<T>(s: Seq<T>, p: spec_fn(T) -> bool) -> Option<int>
    decreases s.len(),
{
    if s.len() == 0 {
        None
    } else if p(s[0]) {
        Some(0)
    } else {
        match first_index(s.drop_first(), p) {
            Some(i) => Some(i + 1),
            None => None,
        }
    }
}

pub proof fn lemma_first_index_at<T>(s: Seq<T>, p: spec_fn(T) -> bool, i: int)
    requires
        0 <= i < s.len(),
        p(s[i]),
        forall|k: int| 0 <= k < i ==> !p(#[trigger] s[k]),
    ensures
        first_index(s, p) == Some(i),
    decreases i,
{
    if i > 0 {
        assert forall|k: int| 0 <= k < i - 1 implies !p(#[trigger] s.drop_first()[k]) by {
            assert(s.drop_first()[k] == s[k + 1]);
        }
        assert(s.drop_first()[i - 1] == s[i]);
        lemma_first_index_at(s.drop_first(), p, i - 1);
    }
}

pub proof fn lemma_first_index_none<T>(s: Seq<T>, p: spec_fn(T) -> bool)
    requires
        forall|k: int| 0 <= k < s.len() ==> !p(#[trigger] s[k]),
    ensures
        first_index(s, p) is None,
    decreases s.len(),
{
    if s.len() > 0 {
        assert(!p(s[0]));
        assert forall|k: int| 0 <= k < s.len() - 1 implies !p(#[trigger] s.drop_first()[k]) by {
            assert(s.drop_first()[k] == s[k + 1]);
        }
        lemma_first_index_none(s.drop_first(), p);
    }
}

pub proof fn lemma_first_index_bounds<T>(s: Seq<T>, p: spec_fn(T) -> bool)
    ensures
        first_index(s, p) matches Some(i) ==> 0 <= i < s.len() && p(s[i]),
    decreases s.len(),
{
    if s.len() > 0 && !p(s[0]) {
        lemma_first_index_bounds(s.drop_first(), p);
    }
}

/// Where some element satisfies `p`, a first one does.
pub proof fn lemma_first_index_some<T>(s: Seq<T>, p: spec_fn(T) -> bool, i: int)
    requires
        0 <= i < s.len(),
        p(s[i]),
    ensures
        first_index(s, p) is Some,
    decreases s.len(),
{
    if i > 0 && !p(s[0]) {
        assert(s.drop_first()[i - 1] == s[i]);
        lemma_first_index_some(s.drop_first(), p, i - 1);
    }
}

/// No element before the first one that satisfies `p` does.
pub proof fn lemma_first_index_before<T>(s: Seq<T>, p: spec_fn(T) -> bool, k: int)
    requires
        first_index(s, p) matches Some(j) && 0 <= k < j,
    ensures
        !p(s[k]),
    decreases s.len(),
{
    lemma_first_index_bounds(s, p);
    if k > 0 {
        assert(s.drop_first()[k - 1] == s[k]);
        lemma_first_index_before(s.drop_first(), p, k - 1);
    }
}

/// The first element that satisfies `p`.
pub open spec fn first_where<T>(s: Seq<T>, p: spec_fn(T) -> bool) -> Option<T> {
    match first_index(s, p) {
        Some(i) => Some(s[i]),
        None => None,
    }
}

} // verus!
