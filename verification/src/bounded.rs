//! Lists that keep only the newest of what they are given.

use vstd::prelude::*;

verus! {

/// The newest `capacity` items of a list.
pub open spec fn newest<T>(list: Seq<T>, capacity: nat) -> Seq<T> {
    if list.len() > capacity {
        list.subrange(list.len() - capacity, list.len() as int)
    } else {
        list
    }
}

/// A full list without its oldest item, any other list as it is.
pub open spec fn made_room<T>(list: Seq<T>, capacity: nat) -> Seq<T> {
    if list.len() > 0 && list.len() >= capacity {
        list.drop_first()
    } else {
        list
    }
}

/// However much is added, a bounded list never exceeds its capacity.
pub proof fn law_bounded<T>(list: Seq<T>, item: T, capacity: nat)
    ensures
        newest(list.push(item), capacity).len() <= capacity,
{
}

/// What was added last is always kept.
pub proof fn law_newest_is_kept<T>(list: Seq<T>, item: T, capacity: nat)
    requires
        capacity > 0,
    ensures
        newest(list.push(item), capacity).len() > 0,
        newest(list.push(item), capacity).last() == item,
{
}

/// However many items are added one after the other, the list holds the newest of
/// all that it ever held, in the order they came, and never more than its
/// capacity. `states` are the list before the first item and after each.
pub proof fn law_any_number_of_items<T>(states: Seq<Seq<T>>, items: Seq<T>, capacity: nat)
    requires
        states.len() == items.len() + 1,
        states[0].len() <= capacity,
        forall|k: int|
            0 <= k < items.len() ==> states[k + 1] == newest(
                states[k].push(#[trigger] items[k]),
                capacity,
            ),
    ensures
        states.last() == newest(states[0] + items, capacity),
        states.last().len() <= capacity,
    decreases items.len(),
{
    let n = items.len() as int;
    if n == 0 {
        assert(states[0] + items =~= states[0]);
    } else {
        let item = items[n - 1];
        let earlier = states.drop_last();
        let before = items.drop_last();
        assert forall|k: int| 0 <= k < before.len() implies earlier[k + 1] == newest(
            earlier[k].push(#[trigger] before[k]),
            capacity,
        ) by {
            assert(before[k] == items[k]);
        }
        law_any_number_of_items(earlier, before, capacity);
        assert(earlier.last() == states[n - 1]);
        assert(states.last() == newest(states[n - 1].push(item), capacity));
        assert((states[0] + before).push(item) =~= states[0] + items);
        assert(newest(newest(states[0] + before, capacity).push(item), capacity) =~= newest(
            (states[0] + before).push(item),
            capacity,
        ));
    }
}

/// What is kept is an unbroken run of the newest items in the order they came:
/// only the oldest go.
pub proof fn law_oldest_go_first<T>(list: Seq<T>, capacity: nat)
    ensures
        exists|gone: Seq<T>| list == #[trigger] (gone + newest(list, capacity)),
{
    let kept = newest(list, capacity);
    let gone = list.take(list.len() - kept.len());
    assert(list =~= gone + kept);
}

/// Below capacity nothing is dropped and nothing is reordered.
pub proof fn law_nothing_goes_below_capacity<T>(list: Seq<T>, item: T, capacity: nat)
    requires
        list.len() < capacity,
    ensures
        newest(list.push(item), capacity) == list.push(item),
{
}

/// Making room first and adding then keeps the newest.
pub proof fn lemma_made_room_then_pushed<T>(list: Seq<T>, item: T, capacity: nat)
    requires
        0 < capacity,
        list.len() <= capacity,
    ensures
        made_room(list, capacity).push(item) =~= newest(list.push(item), capacity),
{
}

/// As many of the newest items are kept as the capacity allows: item by item, the
/// end of the list.
pub proof fn law_the_end_of_the_list_is_kept<T>(list: Seq<T>, capacity: nat, i: int)
    ensures
        newest(list, capacity).len() == if list.len() <= capacity {
            list.len()
        } else {
            capacity
        },
        0 <= i < newest(list, capacity).len() ==> newest(list, capacity)[i] == list[list.len()
            - newest(list, capacity).len() + i],
{
}

} // verus!
