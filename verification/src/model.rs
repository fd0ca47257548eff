use vstd::prelude::*;

verus! {

/// Represents a domain object that can be tracked and managed in the inventory system.
///
/// Implementors must define an associated `Id` type and provide a method to
/// retrieve the identifier. The repository stores slots under plain `u64`
/// identifiers, so implementors whose natural identity is another value type
/// map it to a stable `u64` themselves.
pub trait InventoryItem {
    /// The identifier type used to uniquely represent each inventory item.
    type Id;

    /// Returns the identifier of the item.
    fn id(&self) -> Self::Id;
}

/// Represents a time-bound availability slot for a specific inventory item.
///
/// Each slot defines a range (start to end) during which a specific quantity
/// of the item is available. Time values carry no calendar meaning here: they
/// are totally ordered, copyable values.
#[derive(Debug, Clone, Copy, PartialEq, Eq, Structural)]
pub struct AvailabilitySlot {
    /// The ID of the item this slot belongs to.
    pub item_id: u64,

    /// The start time of the availability period.
    pub start: u64,

    /// The end time of the availability period.
    pub end: u64,

    /// The number of units available during this time slot.
    pub available: u32,
}

/// True when `slot` is the exact-match target for `(item_id, start, end)`:
/// the range must equal the queried range precisely; availability plays no part.
pub open spec fn slot_matches(slot: AvailabilitySlot, item_id: u64, start: u64, end: u64) -> bool {
    slot.item_id == item_id && slot.start == start && slot.end == end
}

/// True when some slot in `slots` matches `(item_id, start, end)` exactly.
pub open spec fn has_slot(slots: Seq<AvailabilitySlot>, item_id: u64, start: u64, end: u64) -> bool {
    exists|i: int| 0 <= i < slots.len() && slot_matches(slots[i], item_id, start, end)
}

/// True when the item is known to the store, i.e. at least one slot was
/// inserted for it.
pub open spec fn has_item(slots: Seq<AvailabilitySlot>, item_id: u64) -> bool {
    exists|i: int| 0 <= i < slots.len() && slots[i].item_id == item_id
}

/// The index of the first slot matching `(item_id, start, end)` exactly, or
/// `-1` when no slot matches. Mutating operations target this index.
pub open spec fn first_match(slots: Seq<AvailabilitySlot>, item_id: u64, start: u64, end: u64) -> int
    decreases slots.len(),
{
    if slots.len() == 0 {
        -1
    } else if slot_matches(slots[0], item_id, start, end) {
        0
    } else {
        let rest = first_match(slots.drop_first(), item_id, start, end);
        if rest == -1 {
            -1
        } else {
            rest + 1
        }
    }
}

/// The store after overwriting the availability count of the slot at index `i`.
pub open spec fn with_available(slots: Seq<AvailabilitySlot>, i: int, available: u32) -> Seq<
    AvailabilitySlot,
> {
    slots.update(i, AvailabilitySlot { available, ..slots[i] })
}

/// True when `slot` belongs to `item_id` and its range lies within
/// `[from, to]`, both bounds inclusive. Read queries use containment, in
/// contrast to the exact matching used for mutation targeting.
pub open spec fn slot_contained(slot: AvailabilitySlot, item_id: u64, from: u64, to: u64) -> bool {
    slot.item_id == item_id && from <= slot.start && slot.end <= to
}

/// Every slot of `item_id` whose range lies within `[from, to]`, in store order.
pub open spec fn contained_slots(slots: Seq<AvailabilitySlot>, item_id: u64, from: u64, to: u64) -> Seq<
    AvailabilitySlot,
>
    decreases slots.len(),
{
    if slots.len() == 0 {
        Seq::empty()
    } else {
        let rest = contained_slots(slots.drop_last(), item_id, from, to);
        if slot_contained(slots.last(), item_id, from, to) {
            rest.push(slots.last())
        } else {
            rest
        }
    }
}

/// `first_match` returns `-1` exactly when no slot matches; otherwise it
/// returns the least matching index.
pub proof fn lemma_first_match_properties(
    slots: Seq<AvailabilitySlot>,
    item_id: u64,
    start: u64,
    end: u64,
)
    ensures
        first_match(slots, item_id, start, end) == -1 <==> !has_slot(slots, item_id, start, end),
        has_slot(slots, item_id, start, end) ==> {
            let i = first_match(slots, item_id, start, end);
            &&& 0 <= i < slots.len()
            &&& slot_matches(slots[i], item_id, start, end)
            &&& forall|j: int| 0 <= j < i ==> !slot_matches(slots[j], item_id, start, end)
        },
    decreases slots.len(),
{
    if slots.len() > 0 && !slot_matches(slots[0], item_id, start, end) {
        let rest = slots.drop_first();
        lemma_first_match_properties(rest, item_id, start, end);
        assert(forall|i: int|
            1 <= i < slots.len() ==> slots[i] == rest[i - 1]);
        if has_slot(slots, item_id, start, end) {
            let w = choose|i: int|
                0 <= i < slots.len() && slot_matches(slots[i], item_id, start, end);
            assert(slot_matches(rest[w - 1], item_id, start, end));
            assert(has_slot(rest, item_id, start, end));
        }
        if has_slot(rest, item_id, start, end) {
            let w = choose|i: int|
                0 <= i < rest.len() && slot_matches(rest[i], item_id, start, end);
            assert(slot_matches(slots[w + 1], item_id, start, end));
            assert(has_slot(slots, item_id, start, end));
        }
    }
}

/// Two stores of equal length whose slots match the query at exactly the same
/// positions have the same first match. In particular, overwriting only
/// availability counts never changes which slot a mutation targets.
pub proof fn lemma_first_match_same_keys(
    s1: Seq<AvailabilitySlot>,
    s2: Seq<AvailabilitySlot>,
    item_id: u64,
    start: u64,
    end: u64,
)
    requires
        s1.len() == s2.len(),
        forall|i: int|
            0 <= i < s1.len() ==> slot_matches(s1[i], item_id, start, end) == slot_matches(
                s2[i],
                item_id,
                start,
                end,
            ),
    ensures
        first_match(s1, item_id, start, end) == first_match(s2, item_id, start, end),
{
    lemma_first_match_properties(s1, item_id, start, end);
    lemma_first_match_properties(s2, item_id, start, end);
    if has_slot(s1, item_id, start, end) {
        let w = choose|i: int| 0 <= i < s1.len() && slot_matches(s1[i], item_id, start, end);
        assert(slot_matches(s2[w], item_id, start, end));
        assert(has_slot(s2, item_id, start, end));
    }
    if has_slot(s2, item_id, start, end) {
        let w = choose|i: int| 0 <= i < s2.len() && slot_matches(s2[i], item_id, start, end);
        assert(slot_matches(s1[w], item_id, start, end));
        assert(has_slot(s1, item_id, start, end));
    }
    if has_slot(s1, item_id, start, end) {
        let i1 = first_match(s1, item_id, start, end);
        let i2 = first_match(s2, item_id, start, end);
        assert(slot_matches(s2[i1], item_id, start, end));
        assert(slot_matches(s1[i2], item_id, start, end));
        assert(!(i1 < i2) && !(i2 < i1));
    }
}

} // verus!
