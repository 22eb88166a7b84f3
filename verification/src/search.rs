//! The first element of a sequence that satisfies a predicate.

use vstd::prelude::*;

verus! {

/// Whether some element satisfies `p`.
pub open spec fn any_where<A>(s: Seq<A>, p: spec_fn(A) -> bool) -> bool {
    exists|i: int| 0 <= i < s.len() && p(#[trigger] s[i])
}

/// Whether `i` is the first position whose element satisfies `p`.
pub open spec fn is_first_where<A>(s: Seq<A>, p: spec_fn(A) -> bool, i: int) -> bool {
    &&& 0 <= i < s.len()
    &&& p(s[i])
    &&& forall|j: int| 0 <= j < i ==> !p(#[trigger] s[j])
}

/// The first position whose element satisfies `p` (meaningful when there is one).
pub open spec fn first_where<A>(s: Seq<A>, p: spec_fn(A) -> bool) -> int {
    choose|i: int| is_first_where(s, p, i)
}

/// The first element that satisfies `p`, if any.
pub open spec fn find_where<A>(s: Seq<A>, p: spec_fn(A) -> bool) -> Option<A> {
    if any_where(s, p) {
        Some(s[first_where(s, p)])
    } else {
        None
    }
}

/// When some element satisfies `p`, the first one is at `first_where`.
pub proof fn lemma_first_where<A>(s: Seq<A>, p: spec_fn(A) -> bool)
    requires
        any_where(s, p),
    ensures
        is_first_where(s, p, first_where(s, p)),
    decreases s.len(),
{
    let prefix = s.drop_last();
    if any_where(prefix, p) {
        lemma_first_where(prefix, p);
        let i = first_where(prefix, p);
        assert forall|j: int| 0 <= j < i implies !p(#[trigger] s[j]) by {
            assert(s[j] == prefix[j]);
        }
        assert(s[i] == prefix[i]);
        assert(is_first_where(s, p, i));
    } else {
        let i = s.len() - 1;
        let w = choose|w: int| 0 <= w < s.len() && p(#[trigger] s[w]);
        if w < i {
            assert(prefix[w] == s[w]);
        }
        assert forall|j: int| 0 <= j < i implies !p(#[trigger] s[j]) by {
            assert(s[j] == prefix[j]);
        }
        assert(is_first_where(s, p, i));
    }
}

/// A first position found by a scan from the front is the one `first_where` names.
pub proof fn lemma_first_where_is<A>(s: Seq<A>, p: spec_fn(A) -> bool, i: int)
    requires
        is_first_where(s, p, i),
    ensures
        any_where(s, p),
        first_where(s, p) == i,
        find_where(s, p) == Some(s[i]),
{
    assert(p(s[i]));
    let j = first_where(s, p);
    assert(is_first_where(s, p, j));
    if j < i {
        assert(!p(s[j]));
    } else if i < j {
        assert(!p(s[i]));
    }
}

} // verus!
