use deadlock_detect::registry::{claim_slot, slot_is_live, vacate_slot};

#[test]
fn empty_table_grows() {
    let mut slots: Vec<Option<u8>> = Vec::new();
    assert_eq!(claim_slot(&mut slots, 7), 0);
    assert_eq!(claim_slot(&mut slots, 8), 1);
    assert_eq!(slots, vec![Some(7), Some(8)]);
}

#[test]
fn lowest_empty_slot_is_reused_before_growth() {
    let mut slots: Vec<Option<u8>> = vec![Some(1), None, Some(3), None];
    assert_eq!(claim_slot(&mut slots, 9), 1);
    assert_eq!(slots, vec![Some(1), Some(9), Some(3), None]);
    assert_eq!(claim_slot(&mut slots, 10), 3);
    assert_eq!(slots, vec![Some(1), Some(9), Some(3), Some(10)]);
    assert_eq!(claim_slot(&mut slots, 11), 4);
    assert_eq!(slots.len(), 5);
    assert_eq!(slots[4], Some(11));
}

#[test]
fn live_slots_are_told_from_empty_and_missing_ones() {
    let slots: Vec<Option<u8>> = vec![Some(1), None];
    assert!(slot_is_live(&slots, 0));
    assert!(!slot_is_live(&slots, 1));
    assert!(!slot_is_live(&slots, 2));
    assert!(!slot_is_live(&slots, usize::MAX));
}

#[test]
fn vacated_slot_is_the_next_to_be_taken() {
    let mut slots: Vec<Option<u8>> = vec![Some(1), Some(2), Some(3)];
    assert_eq!(vacate_slot(&mut slots, 1), Some(2));
    assert_eq!(slots, vec![Some(1), None, Some(3)]);
    assert_eq!(vacate_slot(&mut slots, 1), None);
    assert_eq!(vacate_slot(&mut slots, 3), None);
    assert_eq!(slots, vec![Some(1), None, Some(3)]);
    assert_eq!(claim_slot(&mut slots, 9), 1);
    assert_eq!(slots, vec![Some(1), Some(9), Some(3)]);
}
