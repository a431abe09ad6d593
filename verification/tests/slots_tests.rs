use affnumber::slots::{
    assign_by_identity, call_order, parent_ptr_set, place_new, set_slot, slot_of, ParentSlot,
};

const NONE: usize = usize::MAX;

#[test]
fn parent_pointer_markers() {
    assert!(!parent_ptr_set(0));
    assert!(!parent_ptr_set(usize::MAX));
    assert!(parent_ptr_set(0x1000));
}

#[test]
fn slot_of_previous_display() {
    assert_eq!(slot_of(10, 10, 20), Some(ParentSlot::One));
    assert_eq!(slot_of(20, 10, 20), Some(ParentSlot::Two));
    assert_eq!(slot_of(30, 10, 20), None);
    assert_eq!(slot_of(0, 0, 20), None);
    assert_eq!(slot_of(NONE, NONE, 20), None);
}

#[test]
fn call_order_masks_missing_parents() {
    assert_eq!(call_order(10, 20, 5, 6), (5, 6, 10, 20));
    assert_eq!(call_order(0, 20, 5, 6), (-1, 6, NONE, 20));
    assert_eq!(call_order(10, NONE, 5, 6), (5, -1, 10, NONE));
}

#[test]
fn set_slot_and_place_new() {
    let (mut s1, mut s2, mut o1, mut o2) = (-1, -1, NONE, NONE);
    set_slot(ParentSlot::Two, 7, 30, &mut s1, &mut s2, &mut o1, &mut o2);
    assert_eq!((s1, s2, o1, o2), (-1, 7, NONE, 30));
    place_new(40, 8, None, &mut s1, &mut s2, &mut o1, &mut o2);
    assert_eq!((s1, s2, o1, o2), (8, 7, 40, 30));
    place_new(50, 9, None, &mut s1, &mut s2, &mut o1, &mut o2);
    assert_eq!((s1, s2, o1, o2), (8, 7, 40, 30));
    place_new(60, 1, Some(ParentSlot::One), &mut s1, &mut s2, &mut o1, &mut o2);
    assert_eq!((s1, s2, o1, o2), (8, 1, 40, 60));
}

#[test]
fn fresh_start_uses_call_order() {
    assert_eq!(assign_by_identity(10, 20, 5, 6, NONE, NONE), (5, 6, 10, 20));
}

#[test]
fn same_order_keeps_display() {
    assert_eq!(assign_by_identity(10, 20, 5, 6, 10, 20), (5, 6, 10, 20));
}

#[test]
fn swapped_order_keeps_each_value_under_its_parent() {
    // parent 10 was in slot 1, parent 20 in slot 2; the game now passes 20 first
    assert_eq!(assign_by_identity(20, 10, 6, 5, 10, 20), (5, 6, 10, 20));
}

#[test]
fn new_parent_takes_the_freed_slot() {
    // parent 10 stays in slot 1; 30 replaces 20 in slot 2
    assert_eq!(assign_by_identity(30, 10, 9, 5, 10, 20), (5, 9, 10, 30));
    // parent 20 stays in slot 2; 30 goes to slot 1
    assert_eq!(assign_by_identity(20, 30, 6, 9, 10, 20), (9, 6, 30, 20));
}

#[test]
fn two_new_parents_use_call_order() {
    assert_eq!(assign_by_identity(30, 40, 1, 2, 10, 20), (1, 2, 30, 40));
}

#[test]
fn single_new_parent_uses_call_order() {
    assert_eq!(assign_by_identity(0, 30, -1, 2, 10, 20), (-1, 2, NONE, 30));
}

#[test]
fn known_parent_alone_keeps_its_slot() {
    assert_eq!(assign_by_identity(0, 20, -1, 6, 10, 20), (-1, 6, NONE, 20));
    assert_eq!(assign_by_identity(20, 0, 6, -1, 10, 20), (-1, 6, NONE, 20));
}

#[test]
fn no_parents_with_previous_display_shows_nothing() {
    assert_eq!(assign_by_identity(0, NONE, 1, 2, 10, 20), (-1, -1, NONE, NONE));
}
