//! Finding the first element of a sequence that has a property.

use vstd::prelude::*;

verus! {

/// The index of the first element of `s` for which `wanted` holds.
pub open spec fn first_index<A>(s: Seq<A>, wanted: spec_fn(A) -> bool) -> Option<int>
    decreases s.len(),
{
    if s.len() == 0 {
        None
    } else if wanted(s[0]) {
        Some(0)
    } else {
        match first_index(s.drop_first(), wanted) {
            Some(i) => Some(i + 1),
            None => None,
        }
    }
}

/// What `first_index` finds has the property and nothing in front of it
/// has; where it finds nothing, no element has the property.
pub proof fn lemma_first_index<A>(s: Seq<A>, wanted: spec_fn(A) -> bool)
    ensures
        match first_index(s, wanted) {
            Some(i) => 0 <= i < s.len() && wanted(s[i]) && forall|j: int|
                0 <= j < i ==> !wanted(#[trigger] s[j]),
            None => forall|j: int| 0 <= j < s.len() ==> !wanted(#[trigger] s[j]),
        },
    decreases s.len(),
{
    if s.len() > 0 && !wanted(s[0]) {
        let tail = s.drop_first();
        lemma_first_index(tail, wanted);
        match first_index(tail, wanted) {
            Some(i) => {
                assert forall|j: int| 0 <= j < i + 1 implies !wanted(#[trigger] s[j]) by {
                    if j > 0 {
                        assert(s[j] == tail[j - 1]);
                    }
                }
            },
            None => {
                assert forall|j: int| 0 <= j < s.len() implies !wanted(#[trigger] s[j]) by {
                    if j > 0 {
                        assert(s[j] == tail[j - 1]);
                    }
                }
            },
        }
    }
}

/// An element that has the property, with none in front of it that has,
/// is the one that `first_index` finds.
pub proof fn lemma_first_index_at<A>(s: Seq<A>, wanted: spec_fn(A) -> bool, i: int)
    requires
        0 <= i < s.len(),
        wanted(s[i]),
        forall|j: int| 0 <= j < i ==> !wanted(#[trigger] s[j]),
    ensures
        first_index(s, wanted) == Some(i),
{
    lemma_first_index(s, wanted);
}

/// Where no element has the property, `first_index` finds nothing.
pub proof fn lemma_first_index_none<A>(s: Seq<A>, wanted: spec_fn(A) -> bool)
    requires
        forall|j: int| 0 <= j < s.len() ==> !wanted(#[trigger] s[j]),
    ensures
        first_index(s, wanted) is None,
{
    lemma_first_index(s, wanted);
}

} // verus!
