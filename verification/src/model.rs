//! The mathematical model of the bet ledger.
//!
//! Sums and counts over the nested slot/room/bet structure, and the
//! well-formedness predicate that every operation of the engine preserves:
//! per-room tallies match the bets actually made, the post-wide aggregates
//! match the per-room tallies, slot ids are in range and strictly ascending,
//! and no principal holds more than one bet across the whole post.

use vstd::prelude::*;

use crate::bets::{
    BetDetails, BetDirection, BetMaker, HotOrNotDetails, RoomDetails, SlotDetails, SlotId,
    ROOM_CAPACITY,
};
use crate::{DURATION_OF_EACH_SLOT_IN_SECONDS, MAXIMUM_NUMBER_OF_SLOTS,
    TOTAL_DURATION_OF_ALL_SLOTS_IN_SECONDS};

verus! {

// ---------------------------------------------------------------------------
// The contest time grid
// ---------------------------------------------------------------------------

/// Whether the contest window of a post created at `created_at` has closed by
/// `now`. The boundary second itself is still open.
pub open spec fn contest_closed(created_at: u64, now: u64) -> bool {
    now - created_at > TOTAL_DURATION_OF_ALL_SLOTS_IN_SECONDS
}

/// The hourly slot that `now` falls into, counted from 1 and clamped to the
/// last slot.
pub open spec fn ongoing_slot_id(created_at: u64, now: u64) -> SlotId {
    let raw = (now - created_at) / (DURATION_OF_EACH_SLOT_IN_SECONDS as int) + 1;
    if raw > MAXIMUM_NUMBER_OF_SLOTS as int {
        MAXIMUM_NUMBER_OF_SLOTS
    } else {
        raw as SlotId
    }
}

// ---------------------------------------------------------------------------
// Looking a slot up in the history
// ---------------------------------------------------------------------------

pub open spec fn history_has_slot(history: Seq<(SlotId, SlotDetails)>, slot: SlotId) -> bool {
    exists|i: int| 0 <= i < history.len() && (#[trigger] history[i]).0 == slot
}

pub open spec fn slot_index_in_history(history: Seq<(SlotId, SlotDetails)>, slot: SlotId) -> int {
    choose|i: int| 0 <= i < history.len() && (#[trigger] history[i]).0 == slot
}

/// The rooms of the given slot, reading an absent slot as having none.
pub open spec fn rooms_of_slot(
    history: Seq<(SlotId, SlotDetails)>,
    slot: SlotId,
) -> Seq<RoomDetails> {
    if history_has_slot(history, slot) {
        history[slot_index_in_history(history, slot)].1.room_details@
    } else {
        Seq::<RoomDetails>::empty()
    }
}

/// The id of the room currently open for bets in the given slot: the highest
/// room id present, or 1 while the slot has no materialized room.
pub open spec fn active_room_id(history: Seq<(SlotId, SlotDetails)>, slot: SlotId) -> int {
    if rooms_of_slot(history, slot).len() >= 1 {
        rooms_of_slot(history, slot).len() as int
    } else {
        1
    }
}

/// How many bets the currently active room of the given slot holds.
pub open spec fn active_room_bet_count(history: Seq<(SlotId, SlotDetails)>, slot: SlotId) -> int {
    if rooms_of_slot(history, slot).len() >= 1 {
        rooms_of_slot(history, slot).last().bets_made@.len() as int
    } else {
        0
    }
}

// ---------------------------------------------------------------------------
// Sums and counts over one room's bets
// ---------------------------------------------------------------------------

/// Total amount staked by the given bets.
pub open spec fn sum_of_bet_amounts(bets: Seq<(BetMaker, BetDetails)>) -> int
    decreases bets.len(),
{
    if bets.len() == 0 {
        0
    } else {
        sum_of_bet_amounts(bets.drop_last()) + bets.last().1.amount
    }
}

/// How many of the given bets vote in the given direction.
pub open spec fn count_of_direction(
    bets: Seq<(BetMaker, BetDetails)>,
    direction: BetDirection,
) -> int
    decreases bets.len(),
{
    if bets.len() == 0 {
        0
    } else {
        count_of_direction(bets.drop_last(), direction) + if bets.last().1.bet_direction
            == direction {
            1int
        } else {
            0int
        }
    }
}

/// How many of the given bets the given principal holds.
pub open spec fn count_of_bettor_in_bets(
    bets: Seq<(BetMaker, BetDetails)>,
    bettor: Seq<u8>,
) -> int
    decreases bets.len(),
{
    if bets.len() == 0 {
        0
    } else {
        count_of_bettor_in_bets(bets.drop_last(), bettor) + if bets.last().0@ == bettor {
            1int
        } else {
            0int
        }
    }
}

// ---------------------------------------------------------------------------
// Sums and counts over a slot's rooms
// ---------------------------------------------------------------------------

/// Total of the rooms' pots.
pub open spec fn sum_of_room_pots(rooms: Seq<RoomDetails>) -> int
    decreases rooms.len(),
{
    if rooms.len() == 0 {
        0
    } else {
        sum_of_room_pots(rooms.drop_last()) + rooms.last().room_bets_total_pot
    }
}

/// Total of the rooms' `Hot` tallies.
pub open spec fn sum_of_room_hot_tallies(rooms: Seq<RoomDetails>) -> int
    decreases rooms.len(),
{
    if rooms.len() == 0 {
        0
    } else {
        sum_of_room_hot_tallies(rooms.drop_last()) + rooms.last().total_hot_bets
    }
}

/// Total of the rooms' `Not` tallies.
pub open spec fn sum_of_room_not_tallies(rooms: Seq<RoomDetails>) -> int
    decreases rooms.len(),
{
    if rooms.len() == 0 {
        0
    } else {
        sum_of_room_not_tallies(rooms.drop_last()) + rooms.last().total_not_bets
    }
}

/// How many bets the given principal holds across the rooms.
pub open spec fn count_of_bettor_in_rooms(rooms: Seq<RoomDetails>, bettor: Seq<u8>) -> int
    decreases rooms.len(),
{
    if rooms.len() == 0 {
        0
    } else {
        count_of_bettor_in_rooms(rooms.drop_last(), bettor) + count_of_bettor_in_bets(
            rooms.last().bets_made@,
            bettor,
        )
    }
}

// ---------------------------------------------------------------------------
// Sums and counts over the whole slot history
// ---------------------------------------------------------------------------

/// Total amount bet across all rooms of all slots.
pub open spec fn sum_of_history_pots(history: Seq<(SlotId, SlotDetails)>) -> int
    decreases history.len(),
{
    if history.len() == 0 {
        0
    } else {
        sum_of_history_pots(history.drop_last()) + sum_of_room_pots(
            history.last().1.room_details@,
        )
    }
}

/// Total of the `Hot` tallies across all rooms of all slots.
pub open spec fn sum_of_history_hot_tallies(history: Seq<(SlotId, SlotDetails)>) -> int
    decreases history.len(),
{
    if history.len() == 0 {
        0
    } else {
        sum_of_history_hot_tallies(history.drop_last()) + sum_of_room_hot_tallies(
            history.last().1.room_details@,
        )
    }
}

/// Total of the `Not` tallies across all rooms of all slots.
pub open spec fn sum_of_history_not_tallies(history: Seq<(SlotId, SlotDetails)>) -> int
    decreases history.len(),
{
    if history.len() == 0 {
        0
    } else {
        sum_of_history_not_tallies(history.drop_last()) + sum_of_room_not_tallies(
            history.last().1.room_details@,
        )
    }
}

/// How many bets the given principal holds across the whole post.
pub open spec fn count_of_bettor_in_history(
    history: Seq<(SlotId, SlotDetails)>,
    bettor: Seq<u8>,
) -> int
    decreases history.len(),
{
    if history.len() == 0 {
        0
    } else {
        count_of_bettor_in_history(history.drop_last(), bettor) + count_of_bettor_in_rooms(
            history.last().1.room_details@,
            bettor,
        )
    }
}

/// Whether the given principal holds a bet anywhere in the history.
pub open spec fn history_has_bettor(history: Seq<(SlotId, SlotDetails)>, bettor: Seq<u8>) -> bool {
    count_of_bettor_in_history(history, bettor) > 0
}

// ---------------------------------------------------------------------------
// Well-formedness
// ---------------------------------------------------------------------------

/// A room's tallies match its bets, and the room is within capacity.
pub open spec fn room_wf(room: RoomDetails) -> bool {
    &&& room.room_bets_total_pot == sum_of_bet_amounts(room.bets_made@)
    &&& room.total_hot_bets == count_of_direction(room.bets_made@, BetDirection::Hot)
    &&& room.total_not_bets == count_of_direction(room.bets_made@, BetDirection::Not)
    &&& room.bets_made@.len() <= ROOM_CAPACITY
}

/// A slot holds at least one room, and every room is well-formed.
pub open spec fn slot_wf(slot: SlotDetails) -> bool {
    &&& slot.room_details@.len() >= 1
    &&& forall|j: int|
        0 <= j < slot.room_details@.len() ==> room_wf(#[trigger] slot.room_details@[j])
}

/// Slot ids appear in strictly ascending order.
pub open spec fn history_ordered(history: Seq<(SlotId, SlotDetails)>) -> bool {
    forall|i: int, j: int|
        0 <= i < j < history.len() ==> (#[trigger] history[i]).0 < (#[trigger] history[j]).0
}

/// Every slot id is in range, ids ascend strictly, and slots are well-formed.
pub open spec fn history_wf(history: Seq<(SlotId, SlotDetails)>) -> bool {
    &&& forall|i: int|
        0 <= i < history.len() ==> 1 <= (#[trigger] history[i]).0 <= MAXIMUM_NUMBER_OF_SLOTS
    &&& history_ordered(history)
    &&& forall|i: int| 0 <= i < history.len() ==> slot_wf((#[trigger] history[i]).1)
}

/// No principal holds more than one bet across the whole post.
pub open spec fn one_bet_per_bettor(history: Seq<(SlotId, SlotDetails)>) -> bool {
    forall|bettor: Seq<u8>| count_of_bettor_in_history(history, bettor) <= 1
}

/// The invariant of a post's betting state.
pub open spec fn details_wf(details: HotOrNotDetails) -> bool {
    &&& history_wf(details.slot_history@)
    &&& details.aggregate_stats.total_amount_bet == sum_of_history_pots(details.slot_history@)
    &&& details.aggregate_stats.total_number_of_hot_bets == sum_of_history_hot_tallies(
        details.slot_history@,
    )
    &&& details.aggregate_stats.total_number_of_not_bets == sum_of_history_not_tallies(
        details.slot_history@,
    )
    &&& one_bet_per_bettor(details.slot_history@)
}

} // verus!
