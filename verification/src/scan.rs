//! Position of the first element of a sequence at which a scan stops.

use vstd::prelude::*;

verus! {

/// Number of elements of `s` that stand before the first one that satisfies
/// `stop`; the whole length where none does.
pub open spec fn first_where<A>(s: Seq<A>, stop: spec_fn(A) -> bool) -> int
    decreases s.len(),
{
    if s.len() == 0 || stop(s[0]) {
        0
    } else {
        1 + first_where(s.drop_first(), stop)
    }
}

/// `first_where(s, stop)` lies within `s`, no element before it satisfies
/// `stop`, and it is either the end of `s` or an element that does.
pub proof fn lemma_first_where<A>(s: Seq<A>, stop: spec_fn(A) -> bool)
    ensures
        0 <= first_where(s, stop) <= s.len(),
        first_where(s, stop) < s.len() ==> stop(s[first_where(s, stop)]),
        forall|k: int| 0 <= k < first_where(s, stop) ==> !stop(#[trigger] s[k]),
    decreases s.len(),
{
    if s.len() == 0 || stop(s[0]) {
    } else {
        let t = s.drop_first();
        lemma_first_where(t, stop);
        assert forall|k: int| 0 <= k < first_where(s, stop) implies !stop(#[trigger] s[k]) by {
            if k > 0 {
                assert(s[k] == t[k - 1]);
            }
        }
    }
}

/// A position with that property is `first_where(s, stop)`: there is only
/// one.
pub proof fn lemma_first_where_unique<A>(s: Seq<A>, stop: spec_fn(A) -> bool, i: int)
    requires
        0 <= i <= s.len(),
        i < s.len() ==> stop(s[i]),
        forall|k: int| 0 <= k < i ==> !stop(#[trigger] s[k]),
    ensures
        first_where(s, stop) == i,
    decreases s.len(),
{
    if s.len() == 0 || stop(s[0]) {
    } else {
        let t = s.drop_first();
        assert forall|k: int| 0 <= k < i - 1 implies !stop(#[trigger] t[k]) by {
            assert(t[k] == s[k + 1]);
        }
        lemma_first_where_unique(t, stop, i - 1);
    }
}

} // verus!
