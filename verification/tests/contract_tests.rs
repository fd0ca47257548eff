use inventory_kit::error::InventoryError;
use inventory_kit::in_memory::InMemoryInventoryRepository;
use inventory_kit::service::{AtomicInventoryOps, InventoryRepository};
use inventory_kit::utils::{validate_time_range, validate_time_range_bounded};

fn available_at(
    repo: &InMemoryInventoryRepository,
    item_id: u64,
    from: u64,
    to: u64,
) -> u32 {
    let slots = repo.get_availability(&item_id, from, to).unwrap();
    assert_eq!(slots.len(), 1);
    slots[0].available
}

#[test]
fn insert_then_query_returns_inserted_quantity() {
    let mut repo = InMemoryInventoryRepository::new();
    repo.insert_availability(7, 100, 200, 4);
    let slots = repo.get_availability(&7, 100, 200).unwrap();
    assert_eq!(slots.len(), 1);
    assert_eq!(slots[0].item_id, 7);
    assert_eq!(slots[0].start, 100);
    assert_eq!(slots[0].end, 200);
    assert_eq!(slots[0].available, 4);
}

#[test]
fn containment_query_spans_slots_in_insertion_order() {
    let mut repo = InMemoryInventoryRepository::new();
    repo.insert_availability(1, 1000, 1100, 5);
    repo.insert_availability(2, 1000, 1100, 9);
    repo.insert_availability(1, 1100, 1200, 3);

    let slots = repo.get_availability(&1, 900, 1300).unwrap();
    assert_eq!(slots.len(), 2);
    assert_eq!((slots[0].start, slots[0].end, slots[0].available), (1000, 1100, 5));
    assert_eq!((slots[1].start, slots[1].end, slots[1].available), (1100, 1200, 3));

    // A narrower query keeps only fully contained slots.
    let slots = repo.get_availability(&1, 1050, 1300).unwrap();
    assert_eq!(slots.len(), 1);
    assert_eq!((slots[0].start, slots[0].end), (1100, 1200));

    // The item exists but no slot is contained: an empty answer, not an error.
    let slots = repo.get_availability(&1, 1, 2).unwrap();
    assert_eq!(slots.len(), 0);
}

#[test]
fn reserve_then_release_restores_available() {
    let mut repo = InMemoryInventoryRepository::new();
    repo.insert_availability(3, 800, 900, 10);
    repo.reserve(&3, 800, 900, 4).unwrap();
    assert_eq!(available_at(&repo, 3, 800, 900), 6);
    repo.release(&3, 800, 900, 4).unwrap();
    assert_eq!(available_at(&repo, 3, 800, 900), 10);
}

#[test]
fn adjust_sets_available_absolutely() {
    let mut repo = InMemoryInventoryRepository::new();
    repo.insert_availability(3, 800, 900, 5);
    repo.adjust(&3, 800, 900, 12).unwrap();
    assert_eq!(available_at(&repo, 3, 800, 900), 12);
    repo.adjust(&3, 800, 900, 2).unwrap();
    assert_eq!(available_at(&repo, 3, 800, 900), 2);
    repo.adjust(&3, 800, 900, 0).unwrap();
    assert_eq!(available_at(&repo, 3, 800, 900), 0);
}

#[test]
fn reserve_more_than_available_fails_and_changes_nothing() {
    let mut repo = InMemoryInventoryRepository::new();
    repo.insert_availability(3, 800, 900, 5);
    assert_eq!(
        repo.reserve(&3, 800, 900, 6),
        Err(InventoryError::Insufficient)
    );
    assert_eq!(available_at(&repo, 3, 800, 900), 5);
}

#[test]
fn reserve_unknown_item_or_range_fails_and_changes_nothing() {
    let mut repo = InMemoryInventoryRepository::new();
    repo.insert_availability(3, 800, 900, 5);
    assert_eq!(repo.reserve(&4, 800, 900, 1), Err(InventoryError::NotFound));
    // Containment is not enough for mutation: the range must match exactly.
    assert_eq!(repo.reserve(&3, 810, 890, 1), Err(InventoryError::NotFound));
    assert_eq!(repo.release(&4, 800, 900, 1), Err(InventoryError::NotFound));
    assert_eq!(repo.adjust(&4, 800, 900, 1), Err(InventoryError::NotFound));
    assert_eq!(available_at(&repo, 3, 800, 900), 5);
}

#[test]
fn get_availability_unknown_item_fails() {
    let repo = InMemoryInventoryRepository::new();
    assert_eq!(
        repo.get_availability(&1, 100, 200),
        Err(InventoryError::NotFound)
    );
}

#[test]
fn invalid_range_is_rejected_uniformly() {
    let mut repo = InMemoryInventoryRepository::new();
    repo.insert_availability(3, 800, 900, 5);
    assert_eq!(
        repo.get_availability(&3, 900, 800),
        Err(InventoryError::InvalidTimeRange)
    );
    assert_eq!(
        repo.reserve(&3, 900, 900, 1),
        Err(InventoryError::InvalidTimeRange)
    );
    assert_eq!(
        repo.release(&3, 900, 800, 1),
        Err(InventoryError::InvalidTimeRange)
    );
    assert_eq!(
        repo.adjust(&3, 900, 800, 1),
        Err(InventoryError::InvalidTimeRange)
    );
    assert_eq!(
        repo.reserve_many(&3, &[(900, 800, 1)]),
        Err(InventoryError::InvalidTimeRange)
    );
    assert_eq!(available_at(&repo, 3, 800, 900), 5);
}

#[test]
fn end_at_or_past_clock_bound_is_internal() {
    let mut repo = InMemoryInventoryRepository::new();
    repo.insert_availability(3, 800, 900, 5);
    let r = repo.reserve(&3, 2300, 2400, 1);
    assert!(matches!(r, Err(InventoryError::Internal(_))));
    assert_eq!(available_at(&repo, 3, 800, 900), 5);
}

#[test]
fn disabled_bound_accepts_large_times() {
    let mut repo = InMemoryInventoryRepository::with_range_bound(None);
    repo.insert_availability(3, 5000, 6000, 2);
    repo.reserve(&3, 5000, 6000, 1).unwrap();
    assert_eq!(available_at(&repo, 3, 5000, 6000), 1);
}

#[test]
fn release_overflow_is_internal_and_changes_nothing() {
    let mut repo = InMemoryInventoryRepository::new();
    repo.insert_availability(3, 800, 900, u32::MAX);
    let r = repo.release(&3, 800, 900, 1);
    assert!(matches!(r, Err(InventoryError::Internal(_))));
    assert_eq!(available_at(&repo, 3, 800, 900), u32::MAX);
}

#[test]
fn batch_fails_whole_and_leaves_pre_batch_values() {
    let mut repo = InMemoryInventoryRepository::new();
    repo.insert_availability(1, 1000, 1100, 5);
    repo.insert_availability(1, 1100, 1200, 3);
    let r = repo.reserve_many(&1, &[(1000, 1100, 2), (1100, 1200, 5)]);
    assert_eq!(r, Err(InventoryError::Insufficient));
    let slots = repo.get_availability(&1, 1000, 1200).unwrap();
    assert_eq!(slots[0].available, 5);
    assert_eq!(slots[1].available, 3);
}

#[test]
fn batch_succeeds_whole_and_subtracts_each_request() {
    let mut repo = InMemoryInventoryRepository::new();
    repo.insert_availability(1, 1000, 1100, 5);
    repo.insert_availability(1, 1100, 1200, 3);
    repo.reserve_many(&1, &[(1000, 1100, 2), (1100, 1200, 1)]).unwrap();
    let slots = repo.get_availability(&1, 1000, 1200).unwrap();
    assert_eq!(slots[0].available, 3);
    assert_eq!(slots[1].available, 2);
}

#[test]
fn batch_repeating_one_slot_sees_running_total() {
    let mut repo = InMemoryInventoryRepository::new();
    repo.insert_availability(1, 1000, 1100, 3);

    // Two requests against the same slot cannot jointly over-commit it.
    let r = repo.reserve_many(&1, &[(1000, 1100, 2), (1000, 1100, 2)]);
    assert_eq!(r, Err(InventoryError::Insufficient));
    assert_eq!(available_at(&repo, 1, 1000, 1100), 3);

    // A repeated slot whose combined quantity fits is applied in full.
    repo.reserve_many(&1, &[(1000, 1100, 2), (1000, 1100, 1)]).unwrap();
    assert_eq!(available_at(&repo, 1, 1000, 1100), 0);
}

#[test]
fn batch_on_unknown_item_or_slot_fails() {
    let mut repo = InMemoryInventoryRepository::new();
    assert_eq!(
        repo.reserve_many(&1, &[]),
        Err(InventoryError::NotFound)
    );
    repo.insert_availability(1, 1000, 1100, 5);
    assert_eq!(
        repo.reserve_many(&1, &[(1000, 1100, 1), (1200, 1300, 1)]),
        Err(InventoryError::NotFound)
    );
    assert_eq!(available_at(&repo, 1, 1000, 1100), 5);
    // With every request resolvable, an empty or short batch succeeds.
    repo.reserve_many(&1, &[]).unwrap();
    assert_eq!(available_at(&repo, 1, 1000, 1100), 5);
}

#[test]
fn validate_time_range_checks_order_and_bound() {
    assert!(validate_time_range(900, 1200).is_ok());
    assert_eq!(
        validate_time_range(1500, 1400),
        Err(InventoryError::InvalidTimeRange)
    );
    assert_eq!(
        validate_time_range(1400, 1400),
        Err(InventoryError::InvalidTimeRange)
    );
    assert!(matches!(
        validate_time_range(2300, 2400),
        Err(InventoryError::Internal(_))
    ));
    assert!(validate_time_range_bounded(2300, 5000, None).is_ok());
    assert!(validate_time_range_bounded(100, 200, Some(150)).is_err());
}

#[test]
fn error_messages_name_each_failure() {
    assert_eq!(InventoryError::NotFound.message(), "Item not found");
    assert_eq!(
        InventoryError::Insufficient.message(),
        "Insufficient availability"
    );
    assert_eq!(
        InventoryError::InvalidTimeRange.message(),
        "Invalid time range: start time must be before end time"
    );
    assert_eq!(
        InventoryError::Internal("broken".to_string()).message(),
        "broken"
    );
}
