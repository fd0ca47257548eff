use vstd::prelude::*;

use crate::error::InventoryError;
use crate::model::{
    first_match, has_item, lemma_first_match_properties, slot_matches,
    AvailabilitySlot, contained_slots, with_available,
};
use crate::repository::{batch_outcome, AtomicInventoryOps, InventoryRepository};
use crate::utils::{validate_time_range_bounded, MAX_CLOCK_END};

verus! {

/// An in-memory implementation of an inventory repository.
///
/// Slots are held in one sequence, in insertion order; a slot carries its
/// item identifier, so per-item lookups scan the sequence. This keeps the
/// store suitable for testing, prototyping, or simple use cases without the
/// need for persistent storage.
pub struct InMemoryInventoryRepository {
    slots: Vec<AvailabilitySlot>,
    max_end: Option<u64>,
}

/// The index of the first slot exactly matching `(item_id, start, end)`,
/// or `None` when the item is unknown or no slot matches exactly.
fn find_exact(slots: &Vec<AvailabilitySlot>, item_id: u64, start: u64, end: u64) -> (r: Option<
    usize,
>)
    ensures
        match r {
            Some(i) => i < slots@.len() && first_match(slots@, item_id, start, end) == i as int,
            None => first_match(slots@, item_id, start, end) == -1,
        },
{
    let n = slots.len();
    let mut k: usize = 0;
    while k < n
        invariant
            k <= n,
            n == slots@.len(),
            forall|j: int| 0 <= j < k ==> !slot_matches(slots@[j], item_id, start, end),
        decreases n - k,
    {
        let s = &slots[k];
        if s.item_id == item_id && s.start == start && s.end == end {
            proof {
                assert(slot_matches(slots@[k as int], item_id, start, end));
                lemma_first_match_properties(slots@, item_id, start, end);
            }
            return Some(k);
        }
        k += 1;
    }
    proof {
        lemma_first_match_properties(slots@, item_id, start, end);
    }
    None
}

/// Whether at least one slot was inserted for `item_id`.
fn contains_item(slots: &Vec<AvailabilitySlot>, item_id: u64) -> (r: bool)
    ensures
        r == has_item(slots@, item_id),
{
    let n = slots.len();
    let mut k: usize = 0;
    while k < n
        invariant
            k <= n,
            n == slots@.len(),
            forall|j: int| 0 <= j < k ==> slots@[j].item_id != item_id,
        decreases n - k,
    {
        if slots[k].item_id == item_id {
            return true;
        }
        k += 1;
    }
    false
}

/// An element-wise copy of the store, used as the working state of the batch
/// path: requests are applied to the copy, which replaces the store only once
/// every request has resolved.
fn copy_slots(slots: &Vec<AvailabilitySlot>) -> (r: Vec<AvailabilitySlot>)
    ensures
        r@ == slots@,
{
    let n = slots.len();
    let mut r: Vec<AvailabilitySlot> = Vec::new();
    let mut k: usize = 0;
    while k < n
        invariant
            k <= n,
            n == slots@.len(),
            r@ == slots@.take(k as int),
        decreases n - k,
    {
        r.push(slots[k]);
        proof {
            assert(slots@.take(k as int + 1) =~= slots@.take(k as int).push(slots@[k as int]));
        }
        k += 1;
    }
    proof {
        assert(slots@.take(n as int) =~= slots@);
    }
    r
}

impl InMemoryInventoryRepository {
    /// Creates a new, empty in-memory inventory repository under the default
    /// 24-hour clock policy: end times at or beyond `MAX_CLOCK_END` are
    /// rejected.
    pub fn new() -> (r: Self)
        ensures
            r.slot_seq() == Seq::<AvailabilitySlot>::empty(),
            r.range_bound() == Some(MAX_CLOCK_END),
    {
        Self { slots: Vec::new(), max_end: Some(MAX_CLOCK_END) }
    }

    /// Creates a new, empty repository under the given bound policy: `None`
    /// disables the domain bound check, for callers tracking non-clock time
    /// domains.
    pub fn with_range_bound(max_end: Option<u64>) -> (r: Self)
        ensures
            r.slot_seq() == Seq::<AvailabilitySlot>::empty(),
            r.range_bound() == max_end,
    {
        Self { slots: Vec::new(), max_end }
    }

    /// Inserts a new availability slot for a specific item.
    ///
    /// This is a raw append by design: no validation of overlap or duplicate
    /// ranges is performed, and range hygiene is left to the caller or a
    /// higher-level policy.
    ///
    /// # Parameters
    /// - `item_id`: Identifier of the item.
    /// - `from`: Start of the availability period.
    /// - `to`: End of the availability period.
    /// - `quantity`: Number of available units.
    pub fn insert_availability(&mut self, item_id: u64, from: u64, to: u64, quantity: u32)
        ensures
            final(self).slot_seq() == old(self).slot_seq().push(
                AvailabilitySlot { item_id, start: from, end: to, available: quantity },
            ),
            final(self).range_bound() == old(self).range_bound(),
    {
        self.slots.push(AvailabilitySlot { item_id, start: from, end: to, available: quantity });
    }
}

impl InventoryRepository for InMemoryInventoryRepository {
    closed spec fn slot_seq(&self) -> Seq<AvailabilitySlot> {
        self.slots@
    }

    closed spec fn range_bound(&self) -> Option<u64> {
        self.max_end
    }

    /// Retrieves available slots for a specific item between a given time range.
    fn get_availability(&self, item_id: &u64, from: u64, to: u64) -> (r: Result<
        Vec<AvailabilitySlot>,
        InventoryError,
    >) {
        match validate_time_range_bounded(from, to, self.max_end) {
            Ok(()) => {},
            Err(e) => {
                return Err(e);
            },
        }
        if !contains_item(&self.slots, *item_id) {
            return Err(InventoryError::NotFound);
        }
        let n = self.slots.len();
        let mut result: Vec<AvailabilitySlot> = Vec::new();
        let mut k: usize = 0;
        while k < n
            invariant
                k <= n,
                n == self.slots@.len(),
                result@ == contained_slots(self.slots@.take(k as int), *item_id, from, to),
            decreases n - k,
        {
            let s = self.slots[k];
            if s.item_id == *item_id && from <= s.start && s.end <= to {
                result.push(s);
            }
            proof {
                assert(self.slots@.take(k as int + 1).drop_last() =~= self.slots@.take(k as int));
                assert(self.slots@.take(k as int + 1).last() == self.slots@[k as int]);
            }
            k += 1;
        }
        proof {
            assert(self.slots@.take(n as int) =~= self.slots@);
        }
        Ok(result)
    }

    /// Attempts to reserve a quantity of items within a given time slot.
    fn reserve(&mut self, item_id: &u64, from: u64, to: u64, quantity: u32) -> (r: Result<
        (),
        InventoryError,
    >) {
        match validate_time_range_bounded(from, to, self.max_end) {
            Ok(()) => {},
            Err(e) => {
                return Err(e);
            },
        }
        match find_exact(&self.slots, *item_id, from, to) {
            None => Err(InventoryError::NotFound),
            Some(i) => {
                let slot = self.slots[i];
                if slot.available < quantity {
                    return Err(InventoryError::Insufficient);
                }
                let updated = AvailabilitySlot {
                    item_id: slot.item_id,
                    start: slot.start,
                    end: slot.end,
                    available: slot.available - quantity,
                };
                self.slots.set(i, updated);
                Ok(())
            },
        }
    }

    /// Releases a quantity of items back to the slot. An addition that would
    /// overflow the availability counter is rejected as `Internal`.
    fn release(&mut self, item_id: &u64, from: u64, to: u64, quantity: u32) -> (r: Result<
        (),
        InventoryError,
    >) {
        match validate_time_range_bounded(from, to, self.max_end) {
            Ok(()) => {},
            Err(e) => {
                return Err(e);
            },
        }
        match find_exact(&self.slots, *item_id, from, to) {
            None => Err(InventoryError::NotFound),
            Some(i) => {
                let slot = self.slots[i];
                let sum: u64 = slot.available as u64 + quantity as u64;
                if sum > u32::MAX as u64 {
                    return Err(
                        InventoryError::Internal("Availability counter overflow".to_string()),
                    );
                }
                let updated = AvailabilitySlot {
                    item_id: slot.item_id,
                    start: slot.start,
                    end: slot.end,
                    available: sum as u32,
                };
                self.slots.set(i, updated);
                Ok(())
            },
        }
    }

    /// Adjusts the availability of a specific slot to a new quantity.
    fn adjust(&mut self, item_id: &u64, from: u64, to: u64, new_quantity: u32) -> (r: Result<
        (),
        InventoryError,
    >) {
        match validate_time_range_bounded(from, to, self.max_end) {
            Ok(()) => {},
            Err(e) => {
                return Err(e);
            },
        }
        match find_exact(&self.slots, *item_id, from, to) {
            None => Err(InventoryError::NotFound),
            Some(i) => {
                let slot = self.slots[i];
                let updated = AvailabilitySlot {
                    item_id: slot.item_id,
                    start: slot.start,
                    end: slot.end,
                    available: new_quantity,
                };
                self.slots.set(i, updated);
                Ok(())
            },
        }
    }
}

impl AtomicInventoryOps for InMemoryInventoryRepository {
    /// Attempts to reserve multiple time slots atomically.
    ///
    /// Requests are applied in order to a working copy of the store, each one
    /// validated against the counts the requests before it left behind; the
    /// copy replaces the store only when every request has resolved. If any
    /// reservation fails, the store is left exactly as it was.
    fn reserve_many(&mut self, item_id: &u64, slots: &[(u64, u64, u32)]) -> (r: Result<
        (),
        InventoryError,
    >) {
        if !contains_item(&self.slots, *item_id) {
            return Err(InventoryError::NotFound);
        }
        let mut working = copy_slots(&self.slots);
        proof {
            assert(slots@.skip(0) =~= slots@);
        }
        let n = slots.len();
        let mut k: usize = 0;
        while k < n
            invariant
                k <= n,
                n == slots@.len(),
                self.slots@ == old(self).slots@,
                self.max_end == old(self).max_end,
                has_item(self.slots@, *item_id),
                batch_outcome(self.slots@, *item_id, self.max_end, slots@) == batch_outcome(
                    working@,
                    *item_id,
                    self.max_end,
                    slots@.skip(k as int),
                ),
            decreases n - k,
        {
            let (start, end, qty) = slots[k];
            proof {
                assert(slots@.skip(k as int)[0] == slots@[k as int]);
            }
            if end <= start {
                return Err(InventoryError::InvalidTimeRange);
            }
            if let Some(m) = self.max_end {
                if end >= m {
                    return Err(
                        InventoryError::Internal(
                            "Time must be less than the configured bound".to_string(),
                        ),
                    );
                }
            }
            match find_exact(&working, *item_id, start, end) {
                None => {
                    return Err(InventoryError::NotFound);
                },
                Some(i) => {
                    let slot = working[i];
                    if slot.available < qty {
                        return Err(InventoryError::Insufficient);
                    }
                    let updated = AvailabilitySlot {
                        item_id: slot.item_id,
                        start: slot.start,
                        end: slot.end,
                        available: slot.available - qty,
                    };
                    let ghost w0 = working@;
                    working.set(i, updated);
                    proof {
                        assert(updated == AvailabilitySlot {
                            available: (w0[i as int].available - qty) as u32,
                            ..w0[i as int]
                        });
                        assert(working@ == with_available(
                            w0,
                            i as int,
                            (w0[i as int].available - qty) as u32,
                        ));
                        assert(slots@.skip(k as int).drop_first() =~= slots@.skip(k as int + 1));
                        assert(batch_outcome(w0, *item_id, self.max_end, slots@.skip(k as int))
                            == batch_outcome(
                            working@,
                            *item_id,
                            self.max_end,
                            slots@.skip(k as int + 1),
                        ));
                    }
                },
            }
            k += 1;
        }
        proof {
            assert(slots@.skip(n as int) =~= Seq::<(u64, u64, u32)>::empty());
        }
        self.slots = working;
        Ok(())
    }
}

} // verus!
