//! The largest item of a list, for any type with an order.

use vstd::prelude::*;
use vstd::std_specs::cmp::{PartialOrdIs, PartialOrdSpec};

verus! {

/// Comparisons on `T` answer as the order of `T` is specified.
pub open spec fn has_specified_order<T: PartialOrd>() -> bool {
    T::obeys_partial_cmp_spec()
}

/// `a` is greater than `b` in the order of `T`.
pub open spec fn exceeds<T: PartialOrd>(a: T, b: T) -> bool {
    a.is_gt(&b)
}

/// The item that a pass over `items` from the front ends up with, when it
/// starts with the first item and moves on to each item that exceeds the one
/// it holds.
pub open spec fn largest_of<T: PartialOrd>(items: Seq<T>) -> T
    decreases items.len(),
{
    if items.len() <= 1 {
        items[0]
    } else {
        let best = largest_of(items.drop_last());
        if exceeds(items.last(), best) {
            items.last()
        } else {
            best
        }
    }
}

/// Returns the largest item of `list`, which must not be empty. Among items
/// that do not exceed one another, the one that comes first is returned.
pub fn largest<T: PartialOrd + Copy>(list: &[T]) -> (result: T)
    requires
        list@.len() > 0,
    ensures
        list@.contains(result),
        has_specified_order::<T>() ==> result == largest_of(list@),
{
    let mut largest = list[0];
    let mut i: usize = 0;
    while i < list.len()
        invariant
            i <= list.len(),
            list@.len() > 0,
            list@.contains(largest),
            has_specified_order::<T>() ==> largest == largest_of(
                list@.take(
                    if i == 0 {
                        1
                    } else {
                        i as int
                    },
                ),
            ),
        decreases list.len() - i,
    {
        let item = list[i];
        proof {
            if i > 0 {
                assert(list@.take(i + 1).drop_last() =~= list@.take(i as int));
            }
        }
        if item > largest {
            largest = item;
        }
        i += 1;
    }
    assert(list@.take(i as int) =~= list@);
    largest
}

/// Where the order of `T` is that of a rank in the integers, the largest item
/// of a list is one of its items, and none has a higher rank.
pub proof fn lemma_largest_is_maximum<T: PartialOrd>(items: Seq<T>, rank: spec_fn(T) -> int)
    requires
        items.len() > 0,
        forall|a: T, b: T| #[trigger] exceeds(a, b) <==> rank(a) > rank(b),
    ensures
        items.contains(largest_of(items)),
        forall|i: int|
            0 <= i < items.len() ==> rank(#[trigger] items[i]) <= rank(largest_of(items)),
    decreases items.len(),
{
    if items.len() > 1 {
        let front = items.drop_last();
        lemma_largest_is_maximum(front, rank);
        assert forall|i: int| 0 <= i < items.len() implies rank(#[trigger] items[i]) <= rank(
            largest_of(items),
        ) by {
            if i < front.len() {
                assert(front[i] == items[i]);
            }
        }
    }
}

} // verus!
