use vstd::prelude::*;

verus! {

/// Filtering a list that has one more item at its end keeps or drops that
/// item and leaves the rest as it was.
pub proof fn lemma_filter_push<A>(items: Seq<A>, last: A, keep: spec_fn(A) -> bool)
    ensures
        items.push(last).filter(keep) == if keep(last) {
            items.filter(keep).push(last)
        } else {
            items.filter(keep)
        },
{
    reveal(Seq::filter);
    assert(items.push(last).drop_last() =~= items);
}

/// Filtering the first `k + 1` items of a list, in terms of filtering the
/// first `k`.
pub proof fn lemma_filter_take<A>(items: Seq<A>, k: int, keep: spec_fn(A) -> bool)
    requires
        0 <= k < items.len(),
    ensures
        items.take(k + 1).filter(keep) == if keep(items[k]) {
            items.take(k).filter(keep).push(items[k])
        } else {
            items.take(k).filter(keep)
        },
{
    assert(items.take(k + 1) =~= items.take(k).push(items[k]));
    lemma_filter_push(items.take(k), items[k], keep);
}

/// A filter that keeps no item of a list leaves the empty list.
pub proof fn lemma_filter_none<A>(items: Seq<A>, keep: spec_fn(A) -> bool)
    requires
        forall|i: int| 0 <= i < items.len() ==> !keep(#[trigger] items[i]),
    ensures
        items.filter(keep) == Seq::<A>::empty(),
    decreases items.len(),
{
    reveal(Seq::filter);
    if items.len() > 0 {
        lemma_filter_none(items.drop_last(), keep);
    }
}

} // verus!
