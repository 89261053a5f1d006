use tasklog::reorder::move_item;

fn moved(items: &[i32], start_index: i32, slot: i64) -> Vec<i32> {
    let mut list = items.to_vec();
    move_item(&mut list, start_index, slot);
    list
}

#[test]
fn move_to_own_place_changes_nothing() {
    let items = [10, 20, 30, 40];
    for index in 0..4 {
        assert_eq!(moved(&items, index, i64::from(index)), items);
    }
    // A slot past either end is brought to the nearest position first.
    assert_eq!(moved(&items, 0, -5), items);
    assert_eq!(moved(&items, 3, 99), items);
}

#[test]
fn move_first_to_last_rotates_left() {
    assert_eq!(moved(&[1, 2, 3, 4, 5], 0, 4), [2, 3, 4, 5, 1]);
    assert_eq!(moved(&[1, 2], 0, 1), [2, 1]);
    assert_eq!(moved(&[1, 2, 3], 0, i64::MAX), [2, 3, 1]);
}

#[test]
fn move_last_to_first_rotates_right() {
    assert_eq!(moved(&[1, 2, 3, 4, 5], 4, 0), [5, 1, 2, 3, 4]);
    assert_eq!(moved(&[1, 2, 3, 4, 5], 4, i64::MIN), [5, 1, 2, 3, 4]);
}

#[test]
fn move_repositions_one_item_and_swaps_none() {
    assert_eq!(moved(&[1, 2, 3, 4, 5], 1, 3), [1, 3, 4, 2, 5]);
    assert_eq!(moved(&[1, 2, 3, 4, 5], 3, 1), [1, 4, 2, 3, 5]);
    assert_eq!(moved(&[1, 2, 3, 4, 5], 2, 3), [1, 2, 4, 3, 5]);
}

#[test]
fn move_with_a_start_index_outside_the_list_changes_nothing() {
    let items = [1, 2, 3];
    assert_eq!(moved(&items, -1, 0), items);
    assert_eq!(moved(&items, i32::MIN, 2), items);
    assert_eq!(moved(&items, 3, 0), items);
    assert_eq!(moved(&items, i32::MAX, 0), items);
    assert_eq!(moved(&[], 0, 0), Vec::<i32>::new());
    assert_eq!(moved(&[7], 0, 5), [7]);
}

#[test]
fn move_keeps_the_items() {
    let items = [5, 6, 7, 8, 9, 10];
    for from in 0..6 {
        for slot in -2..9 {
            let mut list = moved(&items, from, slot);
            assert_eq!(list.len(), items.len());
            let target = slot.clamp(0, 5) as usize;
            assert_eq!(list[target], items[from as usize]);
            list.sort();
            assert_eq!(list, items);
        }
    }
}
