//! The engine's standing guarantees, proved once and for all from the
//! invariant that every operation preserves.

use vstd::prelude::*;

use crate::bets::{
    BetDirection, BetMaker, HotOrNotDetails, RoomBetPossibleOutcomes, RoomDetails, SlotDetails,
    SlotId, ROOM_CAPACITY,
};
use crate::lemmas::{
    lemma_count_of_bettor_in_bets_found, lemma_count_of_bettor_in_bets_nonneg,
    lemma_count_of_bettor_in_history_ge_slot, lemma_count_of_bettor_in_rooms_ge_room,
    lemma_count_of_bettor_in_rooms_nonneg, lemma_counts_of_directions_cover,
};
use crate::model::{
    count_of_bettor_in_bets, count_of_bettor_in_history, count_of_bettor_in_rooms,
    count_of_direction, details_wf, one_bet_per_bettor, room_wf, slot_wf, sum_of_bet_amounts,
    sum_of_history_hot_tallies, sum_of_history_not_tallies, sum_of_history_pots,
    sum_of_room_hot_tallies, sum_of_room_not_tallies, sum_of_room_pots,
};
use crate::tabulate::room_tabulated;

verus! {

// ---------------------------------------------------------------------------
// Sums over every single bet of the post
// ---------------------------------------------------------------------------

/// Total amount staked across all rooms of one slot, bet by bet.
pub open spec fn sum_of_slot_bet_amounts(rooms: Seq<RoomDetails>) -> int
    decreases rooms.len(),
{
    if rooms.len() == 0 {
        0
    } else {
        sum_of_slot_bet_amounts(rooms.drop_last()) + sum_of_bet_amounts(
            rooms.last().bets_made@,
        )
    }
}

/// Total amount staked across the whole post, bet by bet.
pub open spec fn sum_of_all_bet_amounts(history: Seq<(SlotId, SlotDetails)>) -> int
    decreases history.len(),
{
    if history.len() == 0 {
        0
    } else {
        sum_of_all_bet_amounts(history.drop_last()) + sum_of_slot_bet_amounts(
            history.last().1.room_details@,
        )
    }
}

/// How many bets across one slot vote in the given direction.
pub open spec fn count_of_direction_in_slot(
    rooms: Seq<RoomDetails>,
    direction: BetDirection,
) -> int
    decreases rooms.len(),
{
    if rooms.len() == 0 {
        0
    } else {
        count_of_direction_in_slot(rooms.drop_last(), direction) + count_of_direction(
            rooms.last().bets_made@,
            direction,
        )
    }
}

/// How many bets across the whole post vote in the given direction.
pub open spec fn count_of_direction_in_history(
    history: Seq<(SlotId, SlotDetails)>,
    direction: BetDirection,
) -> int
    decreases history.len(),
{
    if history.len() == 0 {
        0
    } else {
        count_of_direction_in_history(history.drop_last(), direction) + count_of_direction_in_slot(
            history.last().1.room_details@,
            direction,
        )
    }
}

proof fn lemma_slot_pots_equal_bet_amounts(rooms: Seq<RoomDetails>)
    requires
        forall|j: int| 0 <= j < rooms.len() ==> room_wf(#[trigger] rooms[j]),
    ensures
        sum_of_room_pots(rooms) == sum_of_slot_bet_amounts(rooms),
        sum_of_room_hot_tallies(rooms) == count_of_direction_in_slot(rooms, BetDirection::Hot),
        sum_of_room_not_tallies(rooms) == count_of_direction_in_slot(rooms, BetDirection::Not),
    decreases rooms.len(),
{
    if rooms.len() > 0 {
        let head = rooms.drop_last();
        assert forall|j: int| 0 <= j < head.len() implies room_wf(#[trigger] head[j]) by {
            assert(head[j] == rooms[j]);
        }
        lemma_slot_pots_equal_bet_amounts(head);
        assert(rooms.last() == rooms[rooms.len() - 1]);
        assert(room_wf(rooms.last()));
    }
}

proof fn lemma_history_pots_equal_bet_amounts(history: Seq<(SlotId, SlotDetails)>)
    requires
        forall|i: int| 0 <= i < history.len() ==> slot_wf((#[trigger] history[i]).1),
    ensures
        sum_of_history_pots(history) == sum_of_all_bet_amounts(history),
        sum_of_history_hot_tallies(history) == count_of_direction_in_history(
            history,
            BetDirection::Hot,
        ),
        sum_of_history_not_tallies(history) == count_of_direction_in_history(
            history,
            BetDirection::Not,
        ),
    decreases history.len(),
{
    if history.len() > 0 {
        let head = history.drop_last();
        assert forall|i: int| 0 <= i < head.len() implies slot_wf((#[trigger] head[i]).1) by {
            assert(head[i] == history[i]);
        }
        lemma_history_pots_equal_bet_amounts(head);
        assert(history.last() == history[history.len() - 1]);
        assert(slot_wf(history.last().1));
        lemma_slot_pots_equal_bet_amounts(history.last().1.room_details@);
    }
}

// ---------------------------------------------------------------------------
// The aggregate stats account for every bet
// ---------------------------------------------------------------------------

/// Law: the post-wide total amount bet is the sum of the amounts of every
/// bet across all rooms of all slots.
pub proof fn lemma_aggregate_amount_is_total_of_all_bets(details: HotOrNotDetails)
    requires
        details_wf(details),
    ensures
        details.aggregate_stats.total_amount_bet == sum_of_all_bet_amounts(
            details.slot_history@,
        ),
{
    lemma_history_pots_equal_bet_amounts(details.slot_history@);
}

/// Law: the post-wide hot and not tallies are the per-room tallies summed,
/// and those in turn count the bets of each direction one by one.
pub proof fn lemma_aggregate_tallies_count_every_bet(details: HotOrNotDetails)
    requires
        details_wf(details),
    ensures
        details.aggregate_stats.total_number_of_hot_bets == sum_of_history_hot_tallies(
            details.slot_history@,
        ),
        details.aggregate_stats.total_number_of_not_bets == sum_of_history_not_tallies(
            details.slot_history@,
        ),
        details.aggregate_stats.total_number_of_hot_bets == count_of_direction_in_history(
            details.slot_history@,
            BetDirection::Hot,
        ),
        details.aggregate_stats.total_number_of_not_bets == count_of_direction_in_history(
            details.slot_history@,
            BetDirection::Not,
        ),
{
    lemma_history_pots_equal_bet_amounts(details.slot_history@);
}

// ---------------------------------------------------------------------------
// Per-room accounting
// ---------------------------------------------------------------------------

/// Law: in a well-formed room the pot is the sum of the bets' amounts, the
/// two tallies add up to the number of bets made, and a room never exceeds
/// its capacity.
pub proof fn lemma_room_accounting(room: RoomDetails)
    requires
        room_wf(room),
    ensures
        room.room_bets_total_pot == sum_of_bet_amounts(room.bets_made@),
        room.total_hot_bets + room.total_not_bets == room.bets_made@.len(),
        room.bets_made@.len() <= ROOM_CAPACITY,
{
    lemma_counts_of_directions_cover(room.bets_made@);
}

// ---------------------------------------------------------------------------
// One bet per principal across the post
// ---------------------------------------------------------------------------

proof fn lemma_count_in_bets_two(
    bets: Seq<(BetMaker, crate::bets::BetDetails)>,
    bettor: Seq<u8>,
    k1: int,
    k2: int,
)
    requires
        0 <= k1 < k2 < bets.len(),
        bets[k1].0@ == bettor,
        bets[k2].0@ == bettor,
    ensures
        count_of_bettor_in_bets(bets, bettor) >= 2,
    decreases bets.len(),
{
    if k2 == bets.len() - 1 {
        lemma_count_of_bettor_in_bets_found(bets.drop_last(), bettor, k1);
    } else {
        lemma_count_in_bets_two(bets.drop_last(), bettor, k1, k2);
    }
}

proof fn lemma_count_in_rooms_two(
    rooms: Seq<RoomDetails>,
    bettor: Seq<u8>,
    j1: int,
    j2: int,
)
    requires
        0 <= j1 < j2 < rooms.len(),
    ensures
        count_of_bettor_in_rooms(rooms, bettor) >= count_of_bettor_in_bets(
            rooms[j1].bets_made@,
            bettor,
        ) + count_of_bettor_in_bets(rooms[j2].bets_made@, bettor),
    decreases rooms.len(),
{
    if j2 == rooms.len() - 1 {
        lemma_count_of_bettor_in_rooms_ge_room(rooms.drop_last(), bettor, j1);
    } else {
        lemma_count_in_rooms_two(rooms.drop_last(), bettor, j1, j2);
        lemma_count_of_bettor_in_bets_nonneg(rooms.last().bets_made@, bettor);
    }
}

proof fn lemma_count_in_history_two(
    history: Seq<(SlotId, SlotDetails)>,
    bettor: Seq<u8>,
    i1: int,
    i2: int,
)
    requires
        0 <= i1 < i2 < history.len(),
    ensures
        count_of_bettor_in_history(history, bettor) >= count_of_bettor_in_rooms(
            history[i1].1.room_details@,
            bettor,
        ) + count_of_bettor_in_rooms(history[i2].1.room_details@, bettor),
    decreases history.len(),
{
    if i2 == history.len() - 1 {
        lemma_count_of_bettor_in_history_ge_slot(history.drop_last(), bettor, i1);
    } else {
        lemma_count_in_history_two(history.drop_last(), bettor, i1, i2);
        lemma_count_of_bettor_in_rooms_nonneg(history.last().1.room_details@, bettor);
    }
}

/// Law: a principal appears in at most one bet entry across the whole post;
/// two positions holding the same principal are the same position.
pub proof fn lemma_one_bet_entry_per_bettor(
    history: Seq<(SlotId, SlotDetails)>,
    i1: int,
    j1: int,
    k1: int,
    i2: int,
    j2: int,
    k2: int,
)
    requires
        one_bet_per_bettor(history),
        0 <= i1 < history.len(),
        0 <= j1 < history[i1].1.room_details@.len(),
        0 <= k1 < history[i1].1.room_details@[j1].bets_made@.len(),
        0 <= i2 < history.len(),
        0 <= j2 < history[i2].1.room_details@.len(),
        0 <= k2 < history[i2].1.room_details@[j2].bets_made@.len(),
        history[i1].1.room_details@[j1].bets_made@[k1].0@ == history[i2].1.room_details@[j2]
            .bets_made@[k2].0@,
    ensures
        i1 == i2 && j1 == j2 && k1 == k2,
{
    let bettor = history[i1].1.room_details@[j1].bets_made@[k1].0@;
    if i1 != i2 {
        let (a, b) = if i1 < i2 {
            (i1, i2)
        } else {
            (i2, i1)
        };
        let (ja, jb) = if i1 < i2 {
            (j1, j2)
        } else {
            (j2, j1)
        };
        let (ka, kb) = if i1 < i2 {
            (k1, k2)
        } else {
            (k2, k1)
        };
        lemma_count_in_history_two(history, bettor, a, b);
        lemma_count_of_bettor_in_bets_found(history[a].1.room_details@[ja].bets_made@, bettor, ka);
        lemma_count_of_bettor_in_bets_found(history[b].1.room_details@[jb].bets_made@, bettor, kb);
        lemma_count_of_bettor_in_rooms_ge_room(history[a].1.room_details@, bettor, ja);
        lemma_count_of_bettor_in_rooms_ge_room(history[b].1.room_details@, bettor, jb);
        assert(count_of_bettor_in_history(history, bettor) >= 2);
    } else if j1 != j2 {
        let (ja, jb) = if j1 < j2 {
            (j1, j2)
        } else {
            (j2, j1)
        };
        let (ka, kb) = if j1 < j2 {
            (k1, k2)
        } else {
            (k2, k1)
        };
        lemma_count_in_rooms_two(history[i1].1.room_details@, bettor, ja, jb);
        lemma_count_of_bettor_in_bets_found(history[i1].1.room_details@[ja].bets_made@, bettor, ka);
        lemma_count_of_bettor_in_bets_found(history[i1].1.room_details@[jb].bets_made@, bettor, kb);
        lemma_count_of_bettor_in_history_ge_slot(history, bettor, i1);
        assert(count_of_bettor_in_history(history, bettor) >= 2);
    } else if k1 != k2 {
        let (ka, kb) = if k1 < k2 {
            (k1, k2)
        } else {
            (k2, k1)
        };
        lemma_count_in_bets_two(history[i1].1.room_details@[j1].bets_made@, bettor, ka, kb);
        lemma_count_of_bettor_in_rooms_ge_room(history[i1].1.room_details@, bettor, j1);
        lemma_count_of_bettor_in_history_ge_slot(history, bettor, i1);
        assert(count_of_bettor_in_history(history, bettor) >= 2);
    }
}

// ---------------------------------------------------------------------------
// Tabulation settles every payout
// ---------------------------------------------------------------------------

/// Law: after a slot's rooms are tabulated, every room is decided and every
/// bet's payout is calculated, provided each room settled in an earlier
/// tabulation already had its payouts written then. (A bet slipped into an
/// already-settled room would stay uncalculated; timely tabulation, after
/// the slot closes, never meets that state.)
pub proof fn lemma_tabulated_slot_payouts_calculated(
    old_rooms: Seq<RoomDetails>,
    new_rooms: Seq<RoomDetails>,
)
    requires
        old_rooms.len() == new_rooms.len(),
        forall|j: int|
            0 <= j < old_rooms.len() ==> room_tabulated(old_rooms[j], #[trigger] new_rooms[j]),
        forall|j: int, k: int|
            0 <= j < old_rooms.len() && old_rooms[j].bet_outcome
                != RoomBetPossibleOutcomes::BetOngoing && 0 <= k
                < old_rooms[j].bets_made@.len() ==> (#[trigger] old_rooms[j].bets_made@[k]).1
                .payout is Calculated,
    ensures
        forall|j: int|
            0 <= j < new_rooms.len() ==> (#[trigger] new_rooms[j]).bet_outcome
                != RoomBetPossibleOutcomes::BetOngoing,
        forall|j: int, k: int|
            0 <= j < new_rooms.len() && 0 <= k < new_rooms[j].bets_made@.len() ==> (
            #[trigger] new_rooms[j].bets_made@[k]).1.payout is Calculated,
{
    assert forall|j: int|
        0 <= j < new_rooms.len() implies (#[trigger] new_rooms[j]).bet_outcome
            != RoomBetPossibleOutcomes::BetOngoing by {
        assert(room_tabulated(old_rooms[j], new_rooms[j]));
    }
    assert forall|j: int, k: int|
        0 <= j < new_rooms.len() && 0 <= k < new_rooms[j].bets_made@.len() implies (
        #[trigger] new_rooms[j].bets_made@[k]).1.payout is Calculated by {
        assert(room_tabulated(old_rooms[j], new_rooms[j]));
        if old_rooms[j].bet_outcome != RoomBetPossibleOutcomes::BetOngoing {
            assert(new_rooms[j] == old_rooms[j]);
            assert(old_rooms[j].bets_made@[k].1.payout is Calculated);
        }
    }
}

} // verus!
