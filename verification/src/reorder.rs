//! Moving one item of an ordered list to another position.

use vstd::prelude::*;
use vstd::seq_lib::{to_multiset_contains, to_multiset_insert, to_multiset_remove};

verus! {

/// The position nearest to `slot` that a list of `len` items has:
/// `slot` itself between 0 and `len - 1`, else the nearer end.
pub open spec fn clamp_slot(slot: int, len: int) -> int {
    if slot < 0 {
        0
    } else if slot > len - 1 {
        len - 1
    } else {
        slot
    }
}

/// The list with the item at `from` taken out and put back at `to`, where
/// `to` counts positions in the list without the item. The items between
/// the two positions shift by one; no two items are swapped.
pub open spec fn repositioned<T>(items: Seq<T>, from: int, to: int) -> Seq<T> {
    if from == to {
        items
    } else {
        items.remove(from).insert(to, items[from])
    }
}

/// The list after the item at `start_index` was dropped on `slot`. The
/// slot is brought into the list first. A start index that the list does
/// not have leaves the list as it is.
pub open spec fn moved<T>(items: Seq<T>, start_index: int, slot: int) -> Seq<T> {
    if 0 <= start_index < items.len() {
        repositioned(items, start_index, clamp_slot(slot, items.len() as int))
    } else {
        items
    }
}

/// Dropping an item on its own position changes nothing.
pub proof fn lemma_move_to_own_place<T>(items: Seq<T>, start_index: int)
    ensures
        moved(items, start_index, start_index) == items,
        0 <= start_index < items.len() ==> repositioned(items, start_index, start_index) == items,
{
}

/// Moving the first item to the last position rotates the list to the left:
/// the other items keep their order and move up by one, the first follows
/// them.
pub proof fn lemma_move_first_to_last<T>(items: Seq<T>)
    requires
        items.len() > 0,
    ensures
        repositioned(items, 0, items.len() - 1) == items.subrange(1, items.len() as int).push(
            items[0],
        ),
        moved(items, 0, items.len() - 1) == items.subrange(1, items.len() as int).push(items[0]),
{
    assert(repositioned(items, 0, items.len() - 1) =~= items.subrange(1, items.len() as int).push(
        items[0],
    ));
}

/// A move keeps the items: the list has the same length and holds each item
/// as often as before, and the moved item stands at its new position.
pub proof fn lemma_move_keeps_items<T>(items: Seq<T>, from: int, to: int)
    requires
        0 <= from < items.len(),
        0 <= to < items.len(),
    ensures
        repositioned(items, from, to).len() == items.len(),
        repositioned(items, from, to).to_multiset() == items.to_multiset(),
        repositioned(items, from, to)[to] == items[from],
{
    if from != to {
        let item = items[from];
        let without = items.remove(from);
        to_multiset_remove(items, from);
        to_multiset_insert(without, to, item);
        assert(items.to_multiset().count(item) > 0) by {
            to_multiset_contains(items, item);
            assert(items.contains(item));
        }
        assert(items.to_multiset().remove(item).insert(item) =~= items.to_multiset()) by {
            broadcast use vstd::multiset::group_multiset_axioms;

        }
    }
}

/// Moves the item at `start_index` to the position `target_slot`, which is
/// first brought into the list: below zero it is the first position, past
/// the end the last one. The item is taken out and put back, so the target
/// counts positions in the list without it.
///
/// A negative start index, or one past the end, leaves the list as it is.
pub fn move_item<T>(items: &mut Vec<T>, start_index: i32, target_slot: i64)
    ensures
        final(items)@ == moved(old(items)@, start_index as int, target_slot as int),
{
    if start_index < 0 {
        return ;
    }
    let from: usize = start_index as usize;
    let len: usize = items.len();
    if from >= len {
        return ;
    }
    let to: usize = if target_slot < 0 {
        0
    } else if target_slot as u64 >= len as u64 {
        len - 1
    } else {
        target_slot as usize
    };
    if from != to {
        let item = items.remove(from);
        items.insert(to, item);
    }
}

} // verus!
