//! Facts about sequences that the proofs share.

use vstd::prelude::*;

verus! {

/// Some places, as numbers without a bound.
pub open spec fn places_of(places: Seq<usize>) -> Seq<int> {
    places.map_values(|place: usize| place as int)
}

/// How many of the first flags are set.
pub open spec fn set_before(flags: Seq<bool>, count: int) -> nat
    decreases count,
{
    if count <= 0 {
        0
    } else if flags[count - 1] {
        set_before(flags, count - 1) + 1
    } else {
        set_before(flags, count - 1)
    }
}

/// Flags that are alike as far as they are counted are counted alike.
pub proof fn lemma_set_before_agrees(a: Seq<bool>, b: Seq<bool>, count: int)
    requires
        forall|i: int| 0 <= i < count ==> a[i] == b[i],
    ensures
        set_before(a, count) == set_before(b, count),
    decreases count,
{
    if count > 0 {
        lemma_set_before_agrees(a, b, count - 1);
        assert(a[count - 1] == b[count - 1]);
    }
}

/// Pushing an element adds that element and no other.
pub proof fn lemma_push_contains<A>(list: Seq<A>, last: A, value: A)
    ensures
        list.push(last).contains(value) <==> (list.contains(value) || value == last),
{
    if list.contains(value) {
        let i = choose|i: int| 0 <= i < list.len() && list[i] == value;
        assert(list.push(last)[i] == value);
    }
    if value == last {
        assert(list.push(last)[list.len() as int] == value);
    }
    if list.push(last).contains(value) {
        let i = choose|i: int| 0 <= i < list.push(last).len() && list.push(last)[i] == value;
        if i < list.len() {
            assert(list[i] == value);
        }
    }
}

} // verus!
