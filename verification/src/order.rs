//! Putting items in order of a rank, where items of the same rank keep their order.
use vstd::prelude::*;

verus! {

/// The number of leading items whose rank is not above a given one.
pub open spec fn leading_count<T>(items: Seq<T>, rank: spec_fn(T) -> int, limit: int) -> nat
    decreases items.len(),
{
    if items.len() == 0 || rank(items[0]) > limit {
        0
    } else {
        1 + leading_count(items.skip(1), rank, limit)
    }
}

/// The items in order of their rank; items of the same rank keep their order.
pub open spec fn stably_ordered<T>(items: Seq<T>, rank: spec_fn(T) -> int) -> Seq<T>
    decreases items.len(),
{
    if items.len() == 0 {
        items
    } else {
        let earlier = stably_ordered(items.drop_last(), rank);
        let last = items.last();
        earlier.insert(leading_count(earlier, rank, rank(last)) as int, last)
    }
}

proof fn leading_count_bounds<T>(items: Seq<T>, rank: spec_fn(T) -> int, limit: int)
    ensures
        leading_count(items, rank, limit) <= items.len(),
        forall|i: int|
            0 <= i < leading_count(items, rank, limit) ==> rank(#[trigger] items[i]) <= limit,
        leading_count(items, rank, limit) < items.len() ==> rank(
            items[leading_count(items, rank, limit) as int],
        ) > limit,
    decreases items.len(),
{
    if items.len() > 0 && rank(items[0]) <= limit {
        leading_count_bounds(items.skip(1), rank, limit);
        assert forall|i: int| 0 <= i < leading_count(items, rank, limit) implies rank(
            #[trigger] items[i],
        ) <= limit by {
            if i > 0 {
                assert(items[i] == items.skip(1)[i - 1]);
            }
        }
    }
}

/// A position is the one before which an item goes, if nothing before it ranks higher and the item
/// at it does.
pub proof fn leading_count_is<T>(
    items: Seq<T>,
    rank: spec_fn(T) -> int,
    limit: int,
    count: int,
)
    requires
        0 <= count <= items.len(),
        forall|i: int| 0 <= i < count ==> rank(#[trigger] items[i]) <= limit,
        count < items.len() ==> rank(items[count]) > limit,
    ensures
        leading_count(items, rank, limit) == count,
    decreases items.len(),
{
    if count > 0 {
        let rest = items.skip(1);
        assert forall|i: int| 0 <= i < count - 1 implies rank(#[trigger] rest[i]) <= limit by {
            assert(rest[i] == items[i + 1]);
        }
        leading_count_is(rest, rank, limit, count - 1);
    }
}

/// Ordering keeps every item, and puts the lower ranks first.
pub proof fn ordered_items_are_the_same_in_order<T>(items: Seq<T>, rank: spec_fn(T) -> int)
    ensures
        stably_ordered(items, rank).to_multiset() == items.to_multiset(),
        stably_ordered(items, rank).len() == items.len(),
        forall|left: int, right: int|
            0 <= left < right < items.len() ==> rank(#[trigger] stably_ordered(items, rank)[left])
                <= rank(#[trigger] stably_ordered(items, rank)[right]),
    decreases items.len(),
{
    broadcast use vstd::seq_lib::group_to_multiset_ensures;

    if items.len() > 0 {
        let shorter = items.drop_last();
        let last = items.last();
        let earlier = stably_ordered(shorter, rank);
        ordered_items_are_the_same_in_order(shorter, rank);
        leading_count_bounds(earlier, rank, rank(last));
        let position = leading_count(earlier, rank, rank(last)) as int;
        let sorted = stably_ordered(items, rank);
        assert(items =~= shorter.push(last));
        assert(sorted =~= earlier.take(position).push(last) + earlier.skip(position));
        assert(earlier =~= earlier.take(position) + earlier.skip(position));
        vstd::seq_lib::lemma_multiset_commutative(earlier.take(position), earlier.skip(position));
        vstd::seq_lib::lemma_multiset_commutative(
            earlier.take(position).push(last),
            earlier.skip(position),
        );
        assert(sorted.to_multiset() =~= items.to_multiset());
        assert forall|left: int, right: int| 0 <= left < right < sorted.len() implies rank(
            #[trigger] sorted[left],
        ) <= rank(#[trigger] sorted[right]) by {
            if left == position {
                assert(sorted[right] == earlier[right - 1]);
                if right - 1 > position {
                    assert(rank(earlier[position]) <= rank(earlier[right - 1]));
                }
            } else if right == position {
                assert(sorted[left] == earlier[left]);
            } else {
                let from = if left < position {
                    left
                } else {
                    left - 1
                };
                let to = if right < position {
                    right
                } else {
                    right - 1
                };
                assert(sorted[left] == earlier[from] && sorted[right] == earlier[to]);
            }
        }
    } else {
        assert(stably_ordered(items, rank) == items);
    }
}

proof fn nothing_to_keep<T>(items: Seq<T>, wanted: spec_fn(T) -> bool)
    requires
        forall|i: int| 0 <= i < items.len() ==> !wanted(#[trigger] items[i]),
    ensures
        items.filter(wanted) == Seq::<T>::empty(),
    decreases items.len(),
{
    reveal(Seq::filter);
    if items.len() > 0 {
        nothing_to_keep(items.drop_last(), wanted);
    }
}

/// Items of the same rank keep their order.
pub proof fn ordering_is_stable<T>(items: Seq<T>, rank: spec_fn(T) -> int, value: int)
    ensures
        stably_ordered(items, rank).filter(|item: T| rank(item) == value) == items.filter(
            |item: T| rank(item) == value,
        ),
    decreases items.len(),
{
    let same = |item: T| rank(item) == value;
    if items.len() > 0 {
        let shorter = items.drop_last();
        let last = items.last();
        let earlier = stably_ordered(shorter, rank);
        ordering_is_stable(shorter, rank, value);
        ordered_items_are_the_same_in_order(shorter, rank);
        leading_count_bounds(earlier, rank, rank(last));
        let position = leading_count(earlier, rank, rank(last)) as int;
        let lower = earlier.take(position);
        let higher = earlier.skip(position);
        let only = seq![last];
        assert(earlier =~= lower + higher);
        assert(stably_ordered(items, rank) =~= (lower + only) + higher);
        assert(items =~= shorter + only);
        Seq::filter_distributes_over_add(lower, higher, same);
        Seq::filter_distributes_over_add(lower, only, same);
        Seq::filter_distributes_over_add(lower + only, higher, same);
        Seq::filter_distributes_over_add(shorter, only, same);
        if rank(last) == value {
            assert forall|i: int| 0 <= i < higher.len() implies !same(#[trigger] higher[i]) by {
                assert(higher[i] == earlier[position + i]);
                if i > 0 {
                    assert(rank(earlier[position]) <= rank(earlier[position + i]));
                }
            }
            nothing_to_keep(higher, same);
            assert(lower.filter(same) + higher.filter(same) =~= lower.filter(same));
        } else {
            nothing_to_keep(only, same);
            assert(lower.filter(same) + only.filter(same) =~= lower.filter(same));
            assert(shorter.filter(same) + only.filter(same) =~= shorter.filter(same));
        }
        assert(stably_ordered(items, rank).filter(same) =~= items.filter(same));
    } else {
        assert(stably_ordered(items, rank) == items);
    }
}

} // verus!
