//! The first position of a sequence whose element satisfies a predicate:
//! the lookup rule of every keyed table in the library.
use vstd::prelude::*;

verus! {

/// `i` is the first position of `s` whose element satisfies `p`.
pub open spec fn is_first_where<T>(s: Seq<T>, p: spec_fn(T) -> bool, i: int) -> bool {
    &&& 0 <= i < s.len()
    &&& p(s[i])
    &&& forall|j: int| 0 <= j < i ==> !p(#[trigger] s[j])
}

/// An element that satisfies `p` makes a first such position exist.
pub proof fn lemma_first_where_exists<T>(s: Seq<T>, p: spec_fn(T) -> bool, j: int)
    requires
        0 <= j < s.len(),
        p(s[j]),
    ensures
        exists|i: int| is_first_where(s, p, i),
    decreases j,
{
    if forall|m: int| 0 <= m < j ==> !p(#[trigger] s[m]) {
        assert(is_first_where(s, p, j));
    } else {
        let m = choose|m: int| 0 <= m < j && p(#[trigger] s[m]);
        lemma_first_where_exists(s, p, m);
    }
}

/// There is at most one first position.
pub proof fn lemma_first_where_unique<T>(s: Seq<T>, p: spec_fn(T) -> bool, i: int, j: int)
    requires
        is_first_where(s, p, i),
        is_first_where(s, p, j),
    ensures
        i == j,
{
    if i < j {
        assert(p(s[i]));
    } else if j < i {
        assert(p(s[j]));
    }
}

} // verus!
