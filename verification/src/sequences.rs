//! Sequences: what it is to be a subsequence, and how filters behave.

use vstd::prelude::*;

verus! {

/// `sub` is `whole` with some of its elements left out: `at` gives, for each
/// element of `sub`, its position in `whole`, and these positions rise.
pub open spec fn embeds_at<A>(sub: Seq<A>, whole: Seq<A>, at: Seq<int>) -> bool {
    &&& at.len() == sub.len()
    &&& forall|k: int| 0 <= k < at.len() ==> 0 <= #[trigger] at[k] < whole.len()
    &&& forall|k: int| 0 <= k < at.len() ==> sub[k] == whole[#[trigger] at[k]]
    &&& forall|j: int, k: int| 0 <= j < k < at.len() ==> #[trigger] at[j] < #[trigger] at[k]
}

/// `sub` keeps some elements of `whole`, each at most once and in the order
/// in which `whole` has them.
pub open spec fn is_subsequence<A>(sub: Seq<A>, whole: Seq<A>) -> bool {
    exists|at: Seq<int>| embeds_at(sub, whole, at)
}

/// Filtering a sequence that ends in `last` filters what comes before it and
/// then decides on `last`.
pub proof fn lemma_filter_push<A>(items: Seq<A>, last: A, keep: spec_fn(A) -> bool)
    ensures
        items.push(last).filter(keep) == if keep(last) {
            items.filter(keep).push(last)
        } else {
            items.filter(keep)
        },
{
    reveal(Seq::filter);
    assert(items.push(last).drop_last() =~= items);
}

/// What a filter keeps is a subsequence of what it was given.
pub proof fn lemma_filter_is_subsequence<A>(items: Seq<A>, keep: spec_fn(A) -> bool)
    ensures
        is_subsequence(items.filter(keep), items),
    decreases items.len(),
{
    reveal(Seq::filter);
    if items.len() == 0 {
        assert(embeds_at(items.filter(keep), items, Seq::<int>::empty()));
    } else {
        let front = items.drop_last();
        lemma_filter_is_subsequence(front, keep);
        let at = choose|at: Seq<int>| embeds_at(front.filter(keep), front, at);
        if keep(items.last()) {
            let longer = at.push(items.len() - 1);
            assert(embeds_at(items.filter(keep), items, longer));
        } else {
            assert(embeds_at(items.filter(keep), items, at));
        }
    }
}

/// Filtering by a weaker test first loses nothing that the stronger test keeps.
pub proof fn lemma_filter_through_weaker<A>(
    items: Seq<A>,
    strong: spec_fn(A) -> bool,
    weak: spec_fn(A) -> bool,
)
    requires
        forall|i: int| 0 <= i < items.len() && strong(#[trigger] items[i]) ==> weak(items[i]),
    ensures
        items.filter(strong) == items.filter(weak).filter(strong),
    decreases items.len(),
{
    reveal(Seq::filter);
    if items.len() > 0 {
        let front = items.drop_last();
        let last = items.last();
        assert forall|i: int| 0 <= i < front.len() && strong(#[trigger] front[i]) implies weak(
            front[i],
        ) by {
            assert(front[i] == items[i]);
        }
        lemma_filter_through_weaker(front, strong, weak);
        if weak(last) {
            lemma_filter_push(front.filter(weak), last, strong);
        }
    }
}

/// A filter that every element passes changes nothing.
pub proof fn lemma_filter_keeps_all<A>(items: Seq<A>, keep: spec_fn(A) -> bool)
    requires
        forall|i: int| 0 <= i < items.len() ==> keep(#[trigger] items[i]),
    ensures
        items.filter(keep) == items,
    decreases items.len(),
{
    reveal(Seq::filter);
    if items.len() > 0 {
        let front = items.drop_last();
        assert forall|i: int| 0 <= i < front.len() implies keep(#[trigger] front[i]) by {
            assert(front[i] == items[i]);
        }
        lemma_filter_keeps_all(front, keep);
    }
}

} // verus!
