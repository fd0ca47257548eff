//! The laws the repository operations obey, stated over the slot model and
//! proved once. Each law holds for every implementor of the repository
//! traits, since the traits' contracts are stated over the same model.

use vstd::prelude::*;

use crate::model::{
    contained_slots, first_match, has_slot, lemma_first_match_properties,
    lemma_first_match_same_keys, slot_contained, slot_matches, with_available, AvailabilitySlot,
};
use crate::repository::{batch_outcome, BatchOutcome};
use crate::utils::range_ok;

verus! {

/// True when the single request `req = (start, end, qty)` would succeed on its
/// own against `slots` under bound policy `bound`: its range is accepted, an
/// exact slot exists, and that slot holds at least `qty` units.
pub open spec fn request_admissible(
    slots: Seq<AvailabilitySlot>,
    item_id: u64,
    bound: Option<u64>,
    req: (u64, u64, u32),
) -> bool {
    &&& range_ok(req.0, req.1, bound)
    &&& first_match(slots, item_id, req.0, req.1) >= 0
    &&& slots[first_match(slots, item_id, req.0, req.1)].available >= req.2
}

/// True when some request of the batch targets the slot at index `j`.
pub open spec fn batch_targets(
    slots: Seq<AvailabilitySlot>,
    item_id: u64,
    requests: Seq<(u64, u64, u32)>,
    j: int,
) -> bool {
    exists|k: int|
        0 <= k < requests.len() && first_match(slots, item_id, requests[k].0, requests[k].1) == j
}

/// Law: inserting a slot extends what a containment query for exactly the
/// inserted range returns by that slot, so `get_availability` immediately
/// after the insert reports exactly the inserted quantity for the exact range
/// (as the last entry, after any older slots the query also contains).
pub proof fn lemma_insert_then_query(
    slots: Seq<AvailabilitySlot>,
    item_id: u64,
    from: u64,
    to: u64,
    quantity: u32,
)
    requires
        from < to,
    ensures
        ({
            let slot = AvailabilitySlot { item_id, start: from, end: to, available: quantity };
            let queried = contained_slots(slots.push(slot), item_id, from, to);
            &&& queried == contained_slots(slots, item_id, from, to).push(slot)
            &&& queried.len() >= 1
            &&& queried.last().available == quantity
        }),
{
    let slot = AvailabilitySlot { item_id, start: from, end: to, available: quantity };
    assert(slots.push(slot).drop_last() =~= slots);
    assert(slots.push(slot).last() == slot);
    assert(slot_contained(slot, item_id, from, to));
}

/// Law: `reserve(qty)` followed by `release(qty)` on the same exact range
/// restores the prior `available` value, for any `qty` at most the slot's
/// count. Both operations target the same slot — the first match is blind to
/// availability — and the two updates cancel, restoring the store as a whole.
pub proof fn lemma_reserve_release_round_trip(
    slots: Seq<AvailabilitySlot>,
    item_id: u64,
    start: u64,
    end: u64,
    qty: u32,
)
    requires
        has_slot(slots, item_id, start, end),
        qty <= slots[first_match(slots, item_id, start, end)].available,
    ensures
        ({
            let i = first_match(slots, item_id, start, end);
            let reserved = with_available(slots, i, (slots[i].available - qty) as u32);
            &&& first_match(reserved, item_id, start, end) == i
            &&& with_available(reserved, i, (reserved[i].available + qty) as u32) == slots
        }),
{
    let i = first_match(slots, item_id, start, end);
    lemma_first_match_properties(slots, item_id, start, end);
    let reserved = with_available(slots, i, (slots[i].available - qty) as u32);
    assert forall|j: int| 0 <= j < reserved.len() implies slot_matches(
        reserved[j],
        item_id,
        start,
        end,
    ) == slot_matches(slots[j], item_id, start, end) by {}
    lemma_first_match_same_keys(reserved, slots, item_id, start, end);
    assert(with_available(reserved, i, (reserved[i].available + qty) as u32) =~= slots);
}

/// Law: a batch whose requests are each individually satisfiable against the
/// pre-batch store, and which target pairwise distinct slots, is applied in
/// full: every targeted slot loses exactly its requested quantity and every
/// untargeted slot is untouched. (The other half of all-or-nothing — that a
/// failing batch changes nothing — is every `reserve_many` error case's
/// contract.)
pub proof fn lemma_batch_all_or_nothing(
    slots: Seq<AvailabilitySlot>,
    item_id: u64,
    bound: Option<u64>,
    requests: Seq<(u64, u64, u32)>,
)
    requires
        forall|k: int|
            0 <= k < requests.len() ==> request_admissible(
                slots,
                item_id,
                bound,
                #[trigger] requests[k],
            ),
        forall|k1: int, k2: int|
            0 <= k1 < k2 < requests.len() ==> first_match(
                slots,
                item_id,
                #[trigger] requests[k1].0,
                requests[k1].1,
            ) != first_match(slots, item_id, #[trigger] requests[k2].0, requests[k2].1),
    ensures
        batch_outcome(slots, item_id, bound, requests) matches BatchOutcome::Applied(applied) && {
            &&& applied.len() == slots.len()
            &&& forall|k: int|
                0 <= k < requests.len() ==> applied[first_match(
                    slots,
                    item_id,
                    (#[trigger] requests[k]).0,
                    requests[k].1,
                )] == (AvailabilitySlot {
                    available: (slots[first_match(slots, item_id, requests[k].0, requests[k].1)].available
                        - requests[k].2) as u32,
                    ..slots[first_match(slots, item_id, requests[k].0, requests[k].1)]
                })
            &&& forall|j: int|
                0 <= j < slots.len() && !batch_targets(slots, item_id, requests, j)
                    ==> applied[j] == slots[j]
        },
    decreases requests.len(),
{
    if requests.len() == 0 {
        assert(batch_outcome(slots, item_id, bound, requests) == BatchOutcome::Applied(slots));
    } else {
        let req0 = requests[0];
        assert(request_admissible(slots, item_id, bound, requests[0]));
        let i0 = first_match(slots, item_id, req0.0, req0.1);
        lemma_first_match_properties(slots, item_id, req0.0, req0.1);
        let s1 = with_available(slots, i0, (slots[i0].available - req0.2) as u32);
        let tail = requests.drop_first();
        assert(batch_outcome(slots, item_id, bound, requests) == batch_outcome(
            s1,
            item_id,
            bound,
            tail,
        ));

        // The first matches of the tail's requests do not move: availability
        // updates keep every slot's identity and range.
        assert forall|k: int| 0 <= k < tail.len() implies first_match(
            s1,
            item_id,
            (#[trigger] tail[k]).0,
            tail[k].1,
        ) == first_match(slots, item_id, tail[k].0, tail[k].1) by {
            assert forall|j: int| 0 <= j < s1.len() implies slot_matches(
                s1[j],
                item_id,
                tail[k].0,
                tail[k].1,
            ) == slot_matches(slots[j], item_id, tail[k].0, tail[k].1) by {}
            lemma_first_match_same_keys(s1, slots, item_id, tail[k].0, tail[k].1);
        }

        // Tail requests stay individually satisfiable against s1: each targets
        // a slot other than i0, which s1 left unchanged.
        assert forall|k: int| 0 <= k < tail.len() implies request_admissible(
            s1,
            item_id,
            bound,
            #[trigger] tail[k],
        ) by {
            assert(tail[k] == requests[k + 1]);
            assert(request_admissible(slots, item_id, bound, requests[k + 1]));
            let ik = first_match(slots, item_id, tail[k].0, tail[k].1);
            lemma_first_match_properties(slots, item_id, tail[k].0, tail[k].1);
            assert(0 <= ik < slots.len());
            assert(ik != i0);
            assert(s1[ik] == slots[ik]);
        }

        // Pairwise distinctness carries over to the tail.
        assert forall|k1: int, k2: int| 0 <= k1 < k2 < tail.len() implies first_match(
            s1,
            item_id,
            (#[trigger] tail[k1]).0,
            tail[k1].1,
        ) != first_match(s1, item_id, (#[trigger] tail[k2]).0, tail[k2].1) by {
            assert(tail[k1] == requests[k1 + 1]);
            assert(tail[k2] == requests[k2 + 1]);
        }

        lemma_batch_all_or_nothing(s1, item_id, bound, tail);
        let applied = batch_outcome(s1, item_id, bound, tail)->Applied_0;

        // The head's slot is untargeted by the tail, so the recursive
        // application leaves it at its decremented value.
        assert(!batch_targets(s1, item_id, tail, i0)) by {
            if batch_targets(s1, item_id, tail, i0) {
                let k = choose|k: int|
                    0 <= k < tail.len() && first_match(s1, item_id, tail[k].0, tail[k].1) == i0;
                assert(first_match(slots, item_id, requests[k + 1].0, requests[k + 1].1) == i0);
            }
        }
        assert(applied[i0] == s1[i0]);

        // Every request of the whole batch ends at its decremented value.
        assert forall|k: int| 0 <= k < requests.len() implies applied[first_match(
            slots,
            item_id,
            (#[trigger] requests[k]).0,
            requests[k].1,
        )] == (AvailabilitySlot {
            available: (slots[first_match(slots, item_id, requests[k].0, requests[k].1)].available
                - requests[k].2) as u32,
            ..slots[first_match(slots, item_id, requests[k].0, requests[k].1)]
        }) by {
            if k == 0 {
                assert(applied[i0] == s1[i0]);
            } else {
                assert(tail[k - 1] == requests[k]);
                let ik = first_match(slots, item_id, requests[k].0, requests[k].1);
                lemma_first_match_properties(slots, item_id, requests[k].0, requests[k].1);
                assert(0 <= ik < slots.len());
                assert(first_match(s1, item_id, tail[k - 1].0, tail[k - 1].1) == ik);
                assert(ik != i0);
                assert(s1[ik] == slots[ik]);
            }
        }

        // Untargeted slots are untouched by the head and by the tail.
        assert forall|j: int|
            0 <= j < slots.len() && !batch_targets(slots, item_id, requests, j) implies applied[j]
            == slots[j] by {
            assert(first_match(slots, item_id, requests[0].0, requests[0].1) != j);
            assert(s1[j] == slots[j]);
            if batch_targets(s1, item_id, tail, j) {
                let k = choose|k: int|
                    0 <= k < tail.len() && first_match(s1, item_id, tail[k].0, tail[k].1) == j;
                assert(first_match(slots, item_id, requests[k + 1].0, requests[k + 1].1) == j);
            }
        }
    }
}

} // verus!
