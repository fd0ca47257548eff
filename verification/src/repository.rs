use vstd::prelude::*;

use crate::error::InventoryError;
use crate::model::{
    contained_slots, first_match, has_item, with_available, AvailabilitySlot,
};
use crate::utils::{exceeds_bound, range_ok};

verus! {

/// How a batch of reservation requests plays out against a store, resolved in
/// request order against a running availability total: each request sees the
/// counts left by the requests before it, so a batch that repeats one slot can
/// never over-commit it.
pub enum BatchOutcome {
    /// Every request resolved; the field is the store after all subtractions.
    Applied(Seq<AvailabilitySlot>),
    /// Some request's range is malformed (`end <= start`).
    RangeRejected,
    /// Some request's end lies at or beyond the configured bound.
    BoundRejected,
    /// Some request has no exactly matching slot.
    SlotMissing,
    /// Some request asks for more units than the running total leaves.
    ShortOfStock,
}

/// Resolves `requests` in order against `slots`, under the bound policy
/// `bound`, subtracting as it goes. The first failing request decides the
/// outcome; only a fully resolved batch yields a new store.
pub open spec fn batch_outcome(
    slots: Seq<AvailabilitySlot>,
    item_id: u64,
    bound: Option<u64>,
    requests: Seq<(u64, u64, u32)>,
) -> BatchOutcome
    decreases requests.len(),
{
    if requests.len() == 0 {
        BatchOutcome::Applied(slots)
    } else {
        let start = requests[0].0;
        let end = requests[0].1;
        let qty = requests[0].2;
        if end <= start {
            BatchOutcome::RangeRejected
        } else if exceeds_bound(bound, end) {
            BatchOutcome::BoundRejected
        } else {
            let i = first_match(slots, item_id, start, end);
            if i < 0 {
                BatchOutcome::SlotMissing
            } else if slots[i].available < qty {
                BatchOutcome::ShortOfStock
            } else {
                batch_outcome(
                    with_available(slots, i, (slots[i].available - qty) as u32),
                    item_id,
                    bound,
                    requests.drop_first(),
                )
            }
        }
    }
}

/// Defines the core operations for managing inventory availability.
///
/// Implementors expose their slot store as a sequence (`slot_seq`) and their
/// range-bound policy (`range_bound`); every operation's contract is stated
/// over those two views. Range validation is applied uniformly: every
/// operation that takes a caller-supplied range — including `release` and
/// `adjust` — validates it before touching the store.
pub trait InventoryRepository: Sized {
    /// The slots held by the store, in insertion order.
    spec fn slot_seq(&self) -> Seq<AvailabilitySlot>;

    /// The optional upper bound on end times: `None` disables the check.
    spec fn range_bound(&self) -> Option<u64>;

    /// Retrieves all availability slots for a given item whose range lies
    /// within `[from, to]`, in insertion order.
    ///
    /// Returns `InvalidTimeRange` or `Internal` for a rejected range, and
    /// `NotFound` if no slot was ever inserted for the item.
    fn get_availability(&self, item_id: &u64, from: u64, to: u64) -> (r: Result<
        Vec<AvailabilitySlot>,
        InventoryError,
    >)
        ensures
            to <= from ==> r == Err::<Vec<AvailabilitySlot>, InventoryError>(
                InventoryError::InvalidTimeRange,
            ),
            from < to && exceeds_bound(self.range_bound(), to) ==> r is Err
                && r->Err_0 is Internal,
            range_ok(from, to, self.range_bound()) && !has_item(self.slot_seq(), *item_id)
                ==> r == Err::<Vec<AvailabilitySlot>, InventoryError>(InventoryError::NotFound),
            range_ok(from, to, self.range_bound()) && has_item(self.slot_seq(), *item_id) ==> (
            r matches Ok(v) && v@ == contained_slots(self.slot_seq(), *item_id, from, to)),
    ;

    /// Attempts to reserve `quantity` units from the slot exactly matching
    /// `(item_id, from, to)`, subtracting from its availability.
    ///
    /// Fails with `NotFound` when no exact slot exists, `Insufficient` when
    /// the slot holds fewer units than requested, and a validation error for
    /// a rejected range. On failure the store is unchanged.
    fn reserve(&mut self, item_id: &u64, from: u64, to: u64, quantity: u32) -> (r: Result<
        (),
        InventoryError,
    >)
        ensures
            final(self).range_bound() == old(self).range_bound(),
            to <= from ==> r == Err::<(), InventoryError>(InventoryError::InvalidTimeRange)
                && final(self).slot_seq() == old(self).slot_seq(),
            from < to && exceeds_bound(old(self).range_bound(), to) ==> r is Err
                && r->Err_0 is Internal && final(self).slot_seq() == old(self).slot_seq(),
            range_ok(from, to, old(self).range_bound()) && first_match(
                old(self).slot_seq(),
                *item_id,
                from,
                to,
            ) < 0 ==> r == Err::<(), InventoryError>(InventoryError::NotFound) && final(self).slot_seq()
                == old(self).slot_seq(),
            range_ok(from, to, old(self).range_bound()) && first_match(
                old(self).slot_seq(),
                *item_id,
                from,
                to,
            ) >= 0 && old(self).slot_seq()[first_match(old(self).slot_seq(), *item_id, from, to)].available
                < quantity ==> r == Err::<(), InventoryError>(InventoryError::Insufficient)
                && final(self).slot_seq() == old(self).slot_seq(),
            range_ok(from, to, old(self).range_bound()) && first_match(
                old(self).slot_seq(),
                *item_id,
                from,
                to,
            ) >= 0 && old(self).slot_seq()[first_match(old(self).slot_seq(), *item_id, from, to)].available
                >= quantity ==> r == Ok::<(), InventoryError>(()) && final(self).slot_seq()
                == with_available(
                old(self).slot_seq(),
                first_match(old(self).slot_seq(), *item_id, from, to),
                (old(self).slot_seq()[first_match(old(self).slot_seq(), *item_id, from, to)].available
                    - quantity) as u32,
            ),
    ;

    /// Releases `quantity` units back to the slot exactly matching
    /// `(item_id, from, to)`, adding to its availability.
    ///
    /// No upper-bound check against any original capacity is performed — the
    /// caller is trusted — but an addition that would overflow the counter is
    /// reported as `Internal` and leaves the store unchanged.
    fn release(&mut self, item_id: &u64, from: u64, to: u64, quantity: u32) -> (r: Result<
        (),
        InventoryError,
    >)
        ensures
            final(self).range_bound() == old(self).range_bound(),
            to <= from ==> r == Err::<(), InventoryError>(InventoryError::InvalidTimeRange)
                && final(self).slot_seq() == old(self).slot_seq(),
            from < to && exceeds_bound(old(self).range_bound(), to) ==> r is Err
                && r->Err_0 is Internal && final(self).slot_seq() == old(self).slot_seq(),
            range_ok(from, to, old(self).range_bound()) && first_match(
                old(self).slot_seq(),
                *item_id,
                from,
                to,
            ) < 0 ==> r == Err::<(), InventoryError>(InventoryError::NotFound) && final(self).slot_seq()
                == old(self).slot_seq(),
            range_ok(from, to, old(self).range_bound()) && first_match(
                old(self).slot_seq(),
                *item_id,
                from,
                to,
            ) >= 0 && old(self).slot_seq()[first_match(old(self).slot_seq(), *item_id, from, to)].available
                + quantity > u32::MAX ==> r is Err && r->Err_0 is Internal && final(self).slot_seq()
                == old(self).slot_seq(),
            range_ok(from, to, old(self).range_bound()) && first_match(
                old(self).slot_seq(),
                *item_id,
                from,
                to,
            ) >= 0 && old(self).slot_seq()[first_match(old(self).slot_seq(), *item_id, from, to)].available
                + quantity <= u32::MAX ==> r == Ok::<(), InventoryError>(()) && final(self).slot_seq()
                == with_available(
                old(self).slot_seq(),
                first_match(old(self).slot_seq(), *item_id, from, to),
                (old(self).slot_seq()[first_match(old(self).slot_seq(), *item_id, from, to)].available
                    + quantity) as u32,
            ),
    ;

    /// Sets the availability of the slot exactly matching `(item_id, from, to)`
    /// to `new_quantity`, regardless of its current value.
    fn adjust(&mut self, item_id: &u64, from: u64, to: u64, new_quantity: u32) -> (r: Result<
        (),
        InventoryError,
    >)
        ensures
            final(self).range_bound() == old(self).range_bound(),
            to <= from ==> r == Err::<(), InventoryError>(InventoryError::InvalidTimeRange)
                && final(self).slot_seq() == old(self).slot_seq(),
            from < to && exceeds_bound(old(self).range_bound(), to) ==> r is Err
                && r->Err_0 is Internal && final(self).slot_seq() == old(self).slot_seq(),
            range_ok(from, to, old(self).range_bound()) && first_match(
                old(self).slot_seq(),
                *item_id,
                from,
                to,
            ) < 0 ==> r == Err::<(), InventoryError>(InventoryError::NotFound) && final(self).slot_seq()
                == old(self).slot_seq(),
            range_ok(from, to, old(self).range_bound()) && first_match(
                old(self).slot_seq(),
                *item_id,
                from,
                to,
            ) >= 0 ==> r == Ok::<(), InventoryError>(()) && final(self).slot_seq() == with_available(
                old(self).slot_seq(),
                first_match(old(self).slot_seq(), *item_id, from, to),
                new_quantity,
            ),
    ;
}

/// An extension of `InventoryRepository` that supports atomic operations
/// across multiple slots: all requests succeed together or none applies.
pub trait AtomicInventoryOps: InventoryRepository {
    /// Attempts to reserve multiple availability slots in a single atomic
    /// operation.
    ///
    /// Requests are resolved in order against a running availability total
    /// (see `batch_outcome`), so repeating one slot within a batch cannot
    /// over-commit it. If any request fails — unknown item, malformed or
    /// out-of-bound range, no exactly matching slot, or too few units left —
    /// no change is applied to any slot.
    fn reserve_many(&mut self, item_id: &u64, slots: &[(u64, u64, u32)]) -> (r: Result<
        (),
        InventoryError,
    >)
        ensures
            final(self).range_bound() == old(self).range_bound(),
            !has_item(old(self).slot_seq(), *item_id) ==> r == Err::<(), InventoryError>(
                InventoryError::NotFound,
            ) && final(self).slot_seq() == old(self).slot_seq(),
            has_item(old(self).slot_seq(), *item_id) ==> match batch_outcome(
                old(self).slot_seq(),
                *item_id,
                old(self).range_bound(),
                slots@,
            ) {
                BatchOutcome::Applied(applied) => r == Ok::<(), InventoryError>(())
                    && final(self).slot_seq() == applied,
                BatchOutcome::RangeRejected => r == Err::<(), InventoryError>(
                    InventoryError::InvalidTimeRange,
                ) && final(self).slot_seq() == old(self).slot_seq(),
                BatchOutcome::BoundRejected => r is Err && r->Err_0 is Internal && final(self).slot_seq()
                    == old(self).slot_seq(),
                BatchOutcome::SlotMissing => r == Err::<(), InventoryError>(
                    InventoryError::NotFound,
                ) && final(self).slot_seq() == old(self).slot_seq(),
                BatchOutcome::ShortOfStock => r == Err::<(), InventoryError>(
                    InventoryError::Insufficient,
                ) && final(self).slot_seq() == old(self).slot_seq(),
            },
    ;
}

} // verus!
