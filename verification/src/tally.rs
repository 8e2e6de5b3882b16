//! Sums over a sequence, and how they change with it.

use vstd::prelude::*;

verus! {

/// The sum of the weights of the items of a sequence.
pub open spec fn tally<T>(items: Seq<T>, weight: spec_fn(T) -> nat) -> nat
    decreases items.len(),
{
    if items.len() == 0 {
        0
    } else {
        tally(items.drop_last(), weight) + weight(items.last())
    }
}

/// Changing one item changes the sum by the weight of that item alone.
pub proof fn lemma_tally_update<T>(items: Seq<T>, weight: spec_fn(T) -> nat, i: int, to: T)
    requires
        0 <= i < items.len(),
    ensures
        tally(items.update(i, to), weight) == tally(items, weight) - weight(items[i]) + weight(to),
    decreases items.len(),
{
    let changed = items.update(i, to);
    if i == items.len() - 1 {
        assert(changed.drop_last() =~= items.drop_last());
    } else {
        lemma_tally_update(items.drop_last(), weight, i, to);
        assert(changed.drop_last() =~= items.drop_last().update(i, to));
    }
}

/// Where no item weighs more than one, the sum is at most the number of
/// items, and is that number exactly when every item weighs one.
pub proof fn lemma_tally_bound<T>(items: Seq<T>, weight: spec_fn(T) -> nat)
    requires
        forall|item: T| #[trigger] weight(item) <= 1,
    ensures
        tally(items, weight) <= items.len(),
        tally(items, weight) == items.len() <==> forall|i: int|
            0 <= i < items.len() ==> weight(#[trigger] items[i]) == 1,
    decreases items.len(),
{
    if items.len() > 0 {
        let front = items.drop_last();
        lemma_tally_bound(front, weight);
        assert(forall|i: int| 0 <= i < front.len() ==> front[i] == items[i]);
        if tally(items, weight) == items.len() {
            assert forall|i: int| 0 <= i < items.len() implies weight(#[trigger] items[i]) == 1 by {
                if i < front.len() {
                    assert(weight(front[i]) == 1);
                }
            }
        }
        if forall|i: int| 0 <= i < items.len() ==> weight(#[trigger] items[i]) == 1 {
            assert forall|i: int| 0 <= i < front.len() implies weight(#[trigger] front[i]) == 1 by {
                assert(weight(items[i]) == 1);
            }
            assert(weight(items[items.len() - 1]) == 1);
        }
    }
}

/// The sum is zero exactly when every item weighs nothing.
pub proof fn lemma_tally_none<T>(items: Seq<T>, weight: spec_fn(T) -> nat)
    ensures
        tally(items, weight) == 0 <==> forall|i: int|
            0 <= i < items.len() ==> weight(#[trigger] items[i]) == 0,
    decreases items.len(),
{
    if items.len() > 0 {
        let front = items.drop_last();
        lemma_tally_none(front, weight);
        assert(forall|i: int| 0 <= i < front.len() ==> front[i] == items[i]);
        if tally(items, weight) == 0 {
            assert forall|i: int| 0 <= i < items.len() implies weight(#[trigger] items[i]) == 0 by {
                if i < front.len() {
                    assert(weight(front[i]) == 0);
                }
            }
        }
        if forall|i: int| 0 <= i < items.len() ==> weight(#[trigger] items[i]) == 0 {
            assert forall|i: int| 0 <= i < front.len() implies weight(#[trigger] front[i]) == 0 by {
                assert(weight(items[i]) == 0);
            }
            assert(weight(items[items.len() - 1]) == 0);
        }
    }
}

} // verus!
