//! Induction lemmas about the sums and counts of the model.
//!
//! Each sum is defined by recursion on the last element, so every lemma here
//! is a small induction: how a sum moves under `take`, `push`, `update` and
//! `insert`, that sums of unsigned fields are nonnegative, and that an
//! element never exceeds the sum it contributes to.

use vstd::prelude::*;

use crate::bets::{BetDetails, BetDirection, BetMaker, RoomDetails, SlotDetails, SlotId};
use crate::model::{
    count_of_bettor_in_bets, count_of_bettor_in_history, count_of_bettor_in_rooms,
    count_of_direction, history_has_slot, history_ordered, slot_index_in_history,
    sum_of_bet_amounts, sum_of_history_hot_tallies, sum_of_history_not_tallies,
    sum_of_history_pots, sum_of_room_hot_tallies, sum_of_room_not_tallies, sum_of_room_pots,
};

verus! {

// ---------------------------------------------------------------------------
// A slot id occurs at one index at most
// ---------------------------------------------------------------------------

/// In a strictly ascending history, an index holding the given slot id is the
/// index the lookup returns.
pub proof fn lemma_slot_index_unique(history: Seq<(SlotId, SlotDetails)>, slot: SlotId, i: int)
    requires
        history_ordered(history),
        0 <= i < history.len(),
        history[i].0 == slot,
    ensures
        history_has_slot(history, slot),
        slot_index_in_history(history, slot) == i,
{
    assert(history_has_slot(history, slot));
    let c = slot_index_in_history(history, slot);
    if c < i {
        assert(history[c].0 < history[i].0);
    }
    if c > i {
        assert(history[i].0 < history[c].0);
    }
}

// ---------------------------------------------------------------------------
// Stepping a prefix by one element
// ---------------------------------------------------------------------------

pub proof fn lemma_count_of_bettor_in_bets_take_step(
    bets: Seq<(BetMaker, BetDetails)>,
    bettor: Seq<u8>,
    i: int,
)
    requires
        0 <= i < bets.len(),
    ensures
        count_of_bettor_in_bets(bets.take(i + 1), bettor) == count_of_bettor_in_bets(
            bets.take(i),
            bettor,
        ) + if bets[i].0@ == bettor {
            1int
        } else {
            0int
        },
{
    assert(bets.take(i + 1).drop_last() =~= bets.take(i));
    assert(bets.take(i + 1).last() == bets[i]);
}

pub proof fn lemma_count_of_bettor_in_rooms_take_step(
    rooms: Seq<RoomDetails>,
    bettor: Seq<u8>,
    j: int,
)
    requires
        0 <= j < rooms.len(),
    ensures
        count_of_bettor_in_rooms(rooms.take(j + 1), bettor) == count_of_bettor_in_rooms(
            rooms.take(j),
            bettor,
        ) + count_of_bettor_in_bets(rooms[j].bets_made@, bettor),
{
    assert(rooms.take(j + 1).drop_last() =~= rooms.take(j));
    assert(rooms.take(j + 1).last() == rooms[j]);
}

pub proof fn lemma_count_of_bettor_in_history_take_step(
    history: Seq<(SlotId, SlotDetails)>,
    bettor: Seq<u8>,
    i: int,
)
    requires
        0 <= i < history.len(),
    ensures
        count_of_bettor_in_history(history.take(i + 1), bettor) == count_of_bettor_in_history(
            history.take(i),
            bettor,
        ) + count_of_bettor_in_rooms(history[i].1.room_details@, bettor),
{
    assert(history.take(i + 1).drop_last() =~= history.take(i));
    assert(history.take(i + 1).last() == history[i]);
}

// ---------------------------------------------------------------------------
// Appending one element
// ---------------------------------------------------------------------------

pub proof fn lemma_sum_of_bet_amounts_push(
    bets: Seq<(BetMaker, BetDetails)>,
    entry: (BetMaker, BetDetails),
)
    ensures
        sum_of_bet_amounts(bets.push(entry)) == sum_of_bet_amounts(bets) + entry.1.amount,
{
    assert(bets.push(entry).drop_last() =~= bets);
    assert(bets.push(entry).last() == entry);
}

pub proof fn lemma_count_of_direction_push(
    bets: Seq<(BetMaker, BetDetails)>,
    direction: BetDirection,
    entry: (BetMaker, BetDetails),
)
    ensures
        count_of_direction(bets.push(entry), direction) == count_of_direction(bets, direction)
            + if entry.1.bet_direction == direction {
            1int
        } else {
            0int
        },
{
    assert(bets.push(entry).drop_last() =~= bets);
    assert(bets.push(entry).last() == entry);
}

pub proof fn lemma_count_of_bettor_in_bets_push(
    bets: Seq<(BetMaker, BetDetails)>,
    bettor: Seq<u8>,
    entry: (BetMaker, BetDetails),
)
    ensures
        count_of_bettor_in_bets(bets.push(entry), bettor) == count_of_bettor_in_bets(bets, bettor)
            + if entry.0@ == bettor {
            1int
        } else {
            0int
        },
{
    assert(bets.push(entry).drop_last() =~= bets);
    assert(bets.push(entry).last() == entry);
}

pub proof fn lemma_sum_of_room_pots_push(rooms: Seq<RoomDetails>, room: RoomDetails)
    ensures
        sum_of_room_pots(rooms.push(room)) == sum_of_room_pots(rooms)
            + room.room_bets_total_pot,
{
    assert(rooms.push(room).drop_last() =~= rooms);
    assert(rooms.push(room).last() == room);
}

pub proof fn lemma_sum_of_room_hot_tallies_push(rooms: Seq<RoomDetails>, room: RoomDetails)
    ensures
        sum_of_room_hot_tallies(rooms.push(room)) == sum_of_room_hot_tallies(rooms)
            + room.total_hot_bets,
{
    assert(rooms.push(room).drop_last() =~= rooms);
    assert(rooms.push(room).last() == room);
}

pub proof fn lemma_sum_of_room_not_tallies_push(rooms: Seq<RoomDetails>, room: RoomDetails)
    ensures
        sum_of_room_not_tallies(rooms.push(room)) == sum_of_room_not_tallies(rooms)
            + room.total_not_bets,
{
    assert(rooms.push(room).drop_last() =~= rooms);
    assert(rooms.push(room).last() == room);
}

pub proof fn lemma_count_of_bettor_in_rooms_push(
    rooms: Seq<RoomDetails>,
    bettor: Seq<u8>,
    room: RoomDetails,
)
    ensures
        count_of_bettor_in_rooms(rooms.push(room), bettor) == count_of_bettor_in_rooms(
            rooms,
            bettor,
        ) + count_of_bettor_in_bets(room.bets_made@, bettor),
{
    assert(rooms.push(room).drop_last() =~= rooms);
    assert(rooms.push(room).last() == room);
}

// ---------------------------------------------------------------------------
// Replacing one element
// ---------------------------------------------------------------------------

pub proof fn lemma_sum_of_room_pots_update(rooms: Seq<RoomDetails>, j: int, room: RoomDetails)
    requires
        0 <= j < rooms.len(),
    ensures
        sum_of_room_pots(rooms.update(j, room)) == sum_of_room_pots(rooms)
            - rooms[j].room_bets_total_pot + room.room_bets_total_pot,
    decreases rooms.len(),
{
    let updated = rooms.update(j, room);
    if j == rooms.len() - 1 {
        assert(updated.drop_last() =~= rooms.drop_last());
        assert(updated.last() == room);
    } else {
        assert(updated.drop_last() =~= rooms.drop_last().update(j, room));
        assert(updated.last() == rooms.last());
        lemma_sum_of_room_pots_update(rooms.drop_last(), j, room);
    }
}

pub proof fn lemma_sum_of_room_hot_tallies_update(
    rooms: Seq<RoomDetails>,
    j: int,
    room: RoomDetails,
)
    requires
        0 <= j < rooms.len(),
    ensures
        sum_of_room_hot_tallies(rooms.update(j, room)) == sum_of_room_hot_tallies(rooms)
            - rooms[j].total_hot_bets + room.total_hot_bets,
    decreases rooms.len(),
{
    let updated = rooms.update(j, room);
    if j == rooms.len() - 1 {
        assert(updated.drop_last() =~= rooms.drop_last());
        assert(updated.last() == room);
    } else {
        assert(updated.drop_last() =~= rooms.drop_last().update(j, room));
        assert(updated.last() == rooms.last());
        lemma_sum_of_room_hot_tallies_update(rooms.drop_last(), j, room);
    }
}

pub proof fn lemma_sum_of_room_not_tallies_update(
    rooms: Seq<RoomDetails>,
    j: int,
    room: RoomDetails,
)
    requires
        0 <= j < rooms.len(),
    ensures
        sum_of_room_not_tallies(rooms.update(j, room)) == sum_of_room_not_tallies(rooms)
            - rooms[j].total_not_bets + room.total_not_bets,
    decreases rooms.len(),
{
    let updated = rooms.update(j, room);
    if j == rooms.len() - 1 {
        assert(updated.drop_last() =~= rooms.drop_last());
        assert(updated.last() == room);
    } else {
        assert(updated.drop_last() =~= rooms.drop_last().update(j, room));
        assert(updated.last() == rooms.last());
        lemma_sum_of_room_not_tallies_update(rooms.drop_last(), j, room);
    }
}

pub proof fn lemma_count_of_bettor_in_rooms_update(
    rooms: Seq<RoomDetails>,
    bettor: Seq<u8>,
    j: int,
    room: RoomDetails,
)
    requires
        0 <= j < rooms.len(),
    ensures
        count_of_bettor_in_rooms(rooms.update(j, room), bettor) == count_of_bettor_in_rooms(
            rooms,
            bettor,
        ) - count_of_bettor_in_bets(rooms[j].bets_made@, bettor) + count_of_bettor_in_bets(
            room.bets_made@,
            bettor,
        ),
    decreases rooms.len(),
{
    let updated = rooms.update(j, room);
    if j == rooms.len() - 1 {
        assert(updated.drop_last() =~= rooms.drop_last());
        assert(updated.last() == room);
    } else {
        assert(updated.drop_last() =~= rooms.drop_last().update(j, room));
        assert(updated.last() == rooms.last());
        lemma_count_of_bettor_in_rooms_update(rooms.drop_last(), bettor, j, room);
    }
}

pub proof fn lemma_sum_of_history_pots_update(
    history: Seq<(SlotId, SlotDetails)>,
    i: int,
    entry: (SlotId, SlotDetails),
)
    requires
        0 <= i < history.len(),
    ensures
        sum_of_history_pots(history.update(i, entry)) == sum_of_history_pots(history)
            - sum_of_room_pots(history[i].1.room_details@) + sum_of_room_pots(
            entry.1.room_details@,
        ),
    decreases history.len(),
{
    let updated = history.update(i, entry);
    if i == history.len() - 1 {
        assert(updated.drop_last() =~= history.drop_last());
        assert(updated.last() == entry);
    } else {
        assert(updated.drop_last() =~= history.drop_last().update(i, entry));
        assert(updated.last() == history.last());
        lemma_sum_of_history_pots_update(history.drop_last(), i, entry);
    }
}

pub proof fn lemma_sum_of_history_hot_tallies_update(
    history: Seq<(SlotId, SlotDetails)>,
    i: int,
    entry: (SlotId, SlotDetails),
)
    requires
        0 <= i < history.len(),
    ensures
        sum_of_history_hot_tallies(history.update(i, entry)) == sum_of_history_hot_tallies(
            history,
        ) - sum_of_room_hot_tallies(history[i].1.room_details@) + sum_of_room_hot_tallies(
            entry.1.room_details@,
        ),
    decreases history.len(),
{
    let updated = history.update(i, entry);
    if i == history.len() - 1 {
        assert(updated.drop_last() =~= history.drop_last());
        assert(updated.last() == entry);
    } else {
        assert(updated.drop_last() =~= history.drop_last().update(i, entry));
        assert(updated.last() == history.last());
        lemma_sum_of_history_hot_tallies_update(history.drop_last(), i, entry);
    }
}

pub proof fn lemma_sum_of_history_not_tallies_update(
    history: Seq<(SlotId, SlotDetails)>,
    i: int,
    entry: (SlotId, SlotDetails),
)
    requires
        0 <= i < history.len(),
    ensures
        sum_of_history_not_tallies(history.update(i, entry)) == sum_of_history_not_tallies(
            history,
        ) - sum_of_room_not_tallies(history[i].1.room_details@) + sum_of_room_not_tallies(
            entry.1.room_details@,
        ),
    decreases history.len(),
{
    let updated = history.update(i, entry);
    if i == history.len() - 1 {
        assert(updated.drop_last() =~= history.drop_last());
        assert(updated.last() == entry);
    } else {
        assert(updated.drop_last() =~= history.drop_last().update(i, entry));
        assert(updated.last() == history.last());
        lemma_sum_of_history_not_tallies_update(history.drop_last(), i, entry);
    }
}

pub proof fn lemma_count_of_bettor_in_history_update(
    history: Seq<(SlotId, SlotDetails)>,
    bettor: Seq<u8>,
    i: int,
    entry: (SlotId, SlotDetails),
)
    requires
        0 <= i < history.len(),
    ensures
        count_of_bettor_in_history(history.update(i, entry), bettor)
            == count_of_bettor_in_history(history, bettor) - count_of_bettor_in_rooms(
            history[i].1.room_details@,
            bettor,
        ) + count_of_bettor_in_rooms(entry.1.room_details@, bettor),
    decreases history.len(),
{
    let updated = history.update(i, entry);
    if i == history.len() - 1 {
        assert(updated.drop_last() =~= history.drop_last());
        assert(updated.last() == entry);
    } else {
        assert(updated.drop_last() =~= history.drop_last().update(i, entry));
        assert(updated.last() == history.last());
        lemma_count_of_bettor_in_history_update(history.drop_last(), bettor, i, entry);
    }
}

// ---------------------------------------------------------------------------
// Inserting one element into the history
// ---------------------------------------------------------------------------

pub proof fn lemma_sum_of_history_pots_insert(
    history: Seq<(SlotId, SlotDetails)>,
    i: int,
    entry: (SlotId, SlotDetails),
)
    requires
        0 <= i <= history.len(),
    ensures
        sum_of_history_pots(history.insert(i, entry)) == sum_of_history_pots(history)
            + sum_of_room_pots(entry.1.room_details@),
    decreases history.len(),
{
    let inserted = history.insert(i, entry);
    if i == history.len() {
        assert(inserted.drop_last() =~= history);
        assert(inserted.last() == entry);
    } else {
        assert(inserted.drop_last() =~= history.drop_last().insert(i, entry));
        assert(inserted.last() == history.last());
        lemma_sum_of_history_pots_insert(history.drop_last(), i, entry);
    }
}

pub proof fn lemma_sum_of_history_hot_tallies_insert(
    history: Seq<(SlotId, SlotDetails)>,
    i: int,
    entry: (SlotId, SlotDetails),
)
    requires
        0 <= i <= history.len(),
    ensures
        sum_of_history_hot_tallies(history.insert(i, entry)) == sum_of_history_hot_tallies(
            history,
        ) + sum_of_room_hot_tallies(entry.1.room_details@),
    decreases history.len(),
{
    let inserted = history.insert(i, entry);
    if i == history.len() {
        assert(inserted.drop_last() =~= history);
        assert(inserted.last() == entry);
    } else {
        assert(inserted.drop_last() =~= history.drop_last().insert(i, entry));
        assert(inserted.last() == history.last());
        lemma_sum_of_history_hot_tallies_insert(history.drop_last(), i, entry);
    }
}

pub proof fn lemma_sum_of_history_not_tallies_insert(
    history: Seq<(SlotId, SlotDetails)>,
    i: int,
    entry: (SlotId, SlotDetails),
)
    requires
        0 <= i <= history.len(),
    ensures
        sum_of_history_not_tallies(history.insert(i, entry)) == sum_of_history_not_tallies(
            history,
        ) + sum_of_room_not_tallies(entry.1.room_details@),
    decreases history.len(),
{
    let inserted = history.insert(i, entry);
    if i == history.len() {
        assert(inserted.drop_last() =~= history);
        assert(inserted.last() == entry);
    } else {
        assert(inserted.drop_last() =~= history.drop_last().insert(i, entry));
        assert(inserted.last() == history.last());
        lemma_sum_of_history_not_tallies_insert(history.drop_last(), i, entry);
    }
}

pub proof fn lemma_count_of_bettor_in_history_insert(
    history: Seq<(SlotId, SlotDetails)>,
    bettor: Seq<u8>,
    i: int,
    entry: (SlotId, SlotDetails),
)
    requires
        0 <= i <= history.len(),
    ensures
        count_of_bettor_in_history(history.insert(i, entry), bettor)
            == count_of_bettor_in_history(history, bettor) + count_of_bettor_in_rooms(
            entry.1.room_details@,
            bettor,
        ),
    decreases history.len(),
{
    let inserted = history.insert(i, entry);
    if i == history.len() {
        assert(inserted.drop_last() =~= history);
        assert(inserted.last() == entry);
    } else {
        assert(inserted.drop_last() =~= history.drop_last().insert(i, entry));
        assert(inserted.last() == history.last());
        lemma_count_of_bettor_in_history_insert(history.drop_last(), bettor, i, entry);
    }
}

// ---------------------------------------------------------------------------
// Nonnegativity
// ---------------------------------------------------------------------------

pub proof fn lemma_count_of_bettor_in_bets_nonneg(
    bets: Seq<(BetMaker, BetDetails)>,
    bettor: Seq<u8>,
)
    ensures
        count_of_bettor_in_bets(bets, bettor) >= 0,
    decreases bets.len(),
{
    if bets.len() > 0 {
        lemma_count_of_bettor_in_bets_nonneg(bets.drop_last(), bettor);
    }
}

pub proof fn lemma_count_of_bettor_in_rooms_nonneg(rooms: Seq<RoomDetails>, bettor: Seq<u8>)
    ensures
        count_of_bettor_in_rooms(rooms, bettor) >= 0,
    decreases rooms.len(),
{
    if rooms.len() > 0 {
        lemma_count_of_bettor_in_rooms_nonneg(rooms.drop_last(), bettor);
        lemma_count_of_bettor_in_bets_nonneg(rooms.last().bets_made@, bettor);
    }
}

pub proof fn lemma_count_of_bettor_in_history_nonneg(
    history: Seq<(SlotId, SlotDetails)>,
    bettor: Seq<u8>,
)
    ensures
        count_of_bettor_in_history(history, bettor) >= 0,
    decreases history.len(),
{
    if history.len() > 0 {
        lemma_count_of_bettor_in_history_nonneg(history.drop_last(), bettor);
        lemma_count_of_bettor_in_rooms_nonneg(history.last().1.room_details@, bettor);
    }
}

pub proof fn lemma_sum_of_room_pots_nonneg(rooms: Seq<RoomDetails>)
    ensures
        sum_of_room_pots(rooms) >= 0,
    decreases rooms.len(),
{
    if rooms.len() > 0 {
        lemma_sum_of_room_pots_nonneg(rooms.drop_last());
    }
}

pub proof fn lemma_sum_of_room_hot_tallies_nonneg(rooms: Seq<RoomDetails>)
    ensures
        sum_of_room_hot_tallies(rooms) >= 0,
    decreases rooms.len(),
{
    if rooms.len() > 0 {
        lemma_sum_of_room_hot_tallies_nonneg(rooms.drop_last());
    }
}

pub proof fn lemma_sum_of_room_not_tallies_nonneg(rooms: Seq<RoomDetails>)
    ensures
        sum_of_room_not_tallies(rooms) >= 0,
    decreases rooms.len(),
{
    if rooms.len() > 0 {
        lemma_sum_of_room_not_tallies_nonneg(rooms.drop_last());
    }
}

// ---------------------------------------------------------------------------
// An element never exceeds the sum it contributes to
// ---------------------------------------------------------------------------

pub proof fn lemma_room_pot_le_sum(rooms: Seq<RoomDetails>, j: int)
    requires
        0 <= j < rooms.len(),
    ensures
        rooms[j].room_bets_total_pot <= sum_of_room_pots(rooms),
    decreases rooms.len(),
{
    if j == rooms.len() - 1 {
        lemma_sum_of_room_pots_nonneg(rooms.drop_last());
    } else {
        lemma_room_pot_le_sum(rooms.drop_last(), j);
    }
}

pub proof fn lemma_room_hot_tally_le_sum(rooms: Seq<RoomDetails>, j: int)
    requires
        0 <= j < rooms.len(),
    ensures
        rooms[j].total_hot_bets <= sum_of_room_hot_tallies(rooms),
    decreases rooms.len(),
{
    if j == rooms.len() - 1 {
        lemma_sum_of_room_hot_tallies_nonneg(rooms.drop_last());
    } else {
        lemma_room_hot_tally_le_sum(rooms.drop_last(), j);
    }
}

pub proof fn lemma_room_not_tally_le_sum(rooms: Seq<RoomDetails>, j: int)
    requires
        0 <= j < rooms.len(),
    ensures
        rooms[j].total_not_bets <= sum_of_room_not_tallies(rooms),
    decreases rooms.len(),
{
    if j == rooms.len() - 1 {
        lemma_sum_of_room_not_tallies_nonneg(rooms.drop_last());
    } else {
        lemma_room_not_tally_le_sum(rooms.drop_last(), j);
    }
}

pub proof fn lemma_slot_pots_le_history_sum(history: Seq<(SlotId, SlotDetails)>, i: int)
    requires
        0 <= i < history.len(),
    ensures
        sum_of_room_pots(history[i].1.room_details@) <= sum_of_history_pots(history),
    decreases history.len(),
{
    if i == history.len() - 1 {
        lemma_sum_of_history_pots_nonneg(history.drop_last());
    } else {
        lemma_slot_pots_le_history_sum(history.drop_last(), i);
        lemma_sum_of_room_pots_nonneg(history.last().1.room_details@);
    }
}

pub proof fn lemma_slot_hot_tallies_le_history_sum(history: Seq<(SlotId, SlotDetails)>, i: int)
    requires
        0 <= i < history.len(),
    ensures
        sum_of_room_hot_tallies(history[i].1.room_details@) <= sum_of_history_hot_tallies(
            history,
        ),
    decreases history.len(),
{
    if i == history.len() - 1 {
        lemma_sum_of_history_hot_tallies_nonneg(history.drop_last());
    } else {
        lemma_slot_hot_tallies_le_history_sum(history.drop_last(), i);
        lemma_sum_of_room_hot_tallies_nonneg(history.last().1.room_details@);
    }
}

pub proof fn lemma_slot_not_tallies_le_history_sum(history: Seq<(SlotId, SlotDetails)>, i: int)
    requires
        0 <= i < history.len(),
    ensures
        sum_of_room_not_tallies(history[i].1.room_details@) <= sum_of_history_not_tallies(
            history,
        ),
    decreases history.len(),
{
    if i == history.len() - 1 {
        lemma_sum_of_history_not_tallies_nonneg(history.drop_last());
    } else {
        lemma_slot_not_tallies_le_history_sum(history.drop_last(), i);
        lemma_sum_of_room_not_tallies_nonneg(history.last().1.room_details@);
    }
}

pub proof fn lemma_sum_of_history_pots_nonneg(history: Seq<(SlotId, SlotDetails)>)
    ensures
        sum_of_history_pots(history) >= 0,
    decreases history.len(),
{
    if history.len() > 0 {
        lemma_sum_of_history_pots_nonneg(history.drop_last());
        lemma_sum_of_room_pots_nonneg(history.last().1.room_details@);
    }
}

pub proof fn lemma_sum_of_history_hot_tallies_nonneg(history: Seq<(SlotId, SlotDetails)>)
    ensures
        sum_of_history_hot_tallies(history) >= 0,
    decreases history.len(),
{
    if history.len() > 0 {
        lemma_sum_of_history_hot_tallies_nonneg(history.drop_last());
        lemma_sum_of_room_hot_tallies_nonneg(history.last().1.room_details@);
    }
}

pub proof fn lemma_sum_of_history_not_tallies_nonneg(history: Seq<(SlotId, SlotDetails)>)
    ensures
        sum_of_history_not_tallies(history) >= 0,
    decreases history.len(),
{
    if history.len() > 0 {
        lemma_sum_of_history_not_tallies_nonneg(history.drop_last());
        lemma_sum_of_room_not_tallies_nonneg(history.last().1.room_details@);
    }
}

// ---------------------------------------------------------------------------
// Finding a bettor raises the counts
// ---------------------------------------------------------------------------

pub proof fn lemma_count_of_bettor_in_bets_found(
    bets: Seq<(BetMaker, BetDetails)>,
    bettor: Seq<u8>,
    k: int,
)
    requires
        0 <= k < bets.len(),
        bets[k].0@ == bettor,
    ensures
        count_of_bettor_in_bets(bets, bettor) >= 1,
    decreases bets.len(),
{
    if k == bets.len() - 1 {
        lemma_count_of_bettor_in_bets_nonneg(bets.drop_last(), bettor);
    } else {
        lemma_count_of_bettor_in_bets_found(bets.drop_last(), bettor, k);
    }
}

pub proof fn lemma_count_of_bettor_in_rooms_ge_room(
    rooms: Seq<RoomDetails>,
    bettor: Seq<u8>,
    j: int,
)
    requires
        0 <= j < rooms.len(),
    ensures
        count_of_bettor_in_rooms(rooms, bettor) >= count_of_bettor_in_bets(
            rooms[j].bets_made@,
            bettor,
        ),
    decreases rooms.len(),
{
    if j == rooms.len() - 1 {
        lemma_count_of_bettor_in_rooms_nonneg(rooms.drop_last(), bettor);
    } else {
        lemma_count_of_bettor_in_rooms_ge_room(rooms.drop_last(), bettor, j);
        lemma_count_of_bettor_in_bets_nonneg(rooms.last().bets_made@, bettor);
    }
}

pub proof fn lemma_count_of_bettor_in_history_ge_slot(
    history: Seq<(SlotId, SlotDetails)>,
    bettor: Seq<u8>,
    i: int,
)
    requires
        0 <= i < history.len(),
    ensures
        count_of_bettor_in_history(history, bettor) >= count_of_bettor_in_rooms(
            history[i].1.room_details@,
            bettor,
        ),
    decreases history.len(),
{
    if i == history.len() - 1 {
        lemma_count_of_bettor_in_history_nonneg(history.drop_last(), bettor);
    } else {
        lemma_count_of_bettor_in_history_ge_slot(history.drop_last(), bettor, i);
        lemma_count_of_bettor_in_rooms_nonneg(history.last().1.room_details@, bettor);
    }
}

// ---------------------------------------------------------------------------
// Sums ignore payouts and outcomes
// ---------------------------------------------------------------------------

/// Bets agreeing on bettor, amount and direction have the same sums and
/// counts, whatever their payouts.
pub proof fn lemma_bets_sums_congruent(
    bets1: Seq<(BetMaker, BetDetails)>,
    bets2: Seq<(BetMaker, BetDetails)>,
)
    requires
        bets1.len() == bets2.len(),
        forall|k: int|
            0 <= k < bets1.len() ==> (#[trigger] bets2[k]).0 == bets1[k].0 && bets2[k].1.amount
                == bets1[k].1.amount && bets2[k].1.bet_direction == bets1[k].1.bet_direction,
    ensures
        sum_of_bet_amounts(bets2) == sum_of_bet_amounts(bets1),
        forall|direction: BetDirection|
            count_of_direction(bets2, direction) == count_of_direction(bets1, direction),
        forall|p: Seq<u8>|
            count_of_bettor_in_bets(bets2, p) == count_of_bettor_in_bets(bets1, p),
    decreases bets1.len(),
{
    if bets1.len() == 0 {
        assert forall|direction: BetDirection|
            count_of_direction(bets2, direction) == count_of_direction(bets1, direction) by {
            assert(count_of_direction(bets2, direction) == 0);
            assert(count_of_direction(bets1, direction) == 0);
        }
        assert forall|p: Seq<u8>|
            count_of_bettor_in_bets(bets2, p) == count_of_bettor_in_bets(bets1, p) by {
            assert(count_of_bettor_in_bets(bets2, p) == 0);
            assert(count_of_bettor_in_bets(bets1, p) == 0);
        }
    } else {
        let head1 = bets1.drop_last();
        let head2 = bets2.drop_last();
        assert forall|k: int|
            0 <= k < head1.len() implies (#[trigger] head2[k]).0 == head1[k].0
                && head2[k].1.amount == head1[k].1.amount && head2[k].1.bet_direction
                == head1[k].1.bet_direction by {
            assert(head2[k] == bets2[k]);
            assert(head1[k] == bets1[k]);
        }
        lemma_bets_sums_congruent(head1, head2);
        assert(bets2.last() == bets2[bets1.len() - 1]);
        assert(bets1.last() == bets1[bets1.len() - 1]);
        assert forall|direction: BetDirection|
            count_of_direction(bets2, direction) == count_of_direction(bets1, direction) by {
            assert(count_of_direction(bets2, direction) == count_of_direction(head2, direction)
                + if bets2.last().1.bet_direction == direction {
                1int
            } else {
                0int
            });
            assert(count_of_direction(bets1, direction) == count_of_direction(head1, direction)
                + if bets1.last().1.bet_direction == direction {
                1int
            } else {
                0int
            });
        }
        assert forall|p: Seq<u8>|
            count_of_bettor_in_bets(bets2, p) == count_of_bettor_in_bets(bets1, p) by {
            assert(count_of_bettor_in_bets(bets2, p) == count_of_bettor_in_bets(head2, p)
                + if bets2.last().0@ == p {
                1int
            } else {
                0int
            });
            assert(count_of_bettor_in_bets(bets1, p) == count_of_bettor_in_bets(head1, p)
                + if bets1.last().0@ == p {
                1int
            } else {
                0int
            });
        }
    }
}

/// Whether two rooms hold the same bettors, amounts, directions and tallies;
/// their outcomes and payouts are free to differ.
pub open spec fn room_counts_preserved(room1: RoomDetails, room2: RoomDetails) -> bool {
    &&& room2.room_bets_total_pot == room1.room_bets_total_pot
    &&& room2.total_hot_bets == room1.total_hot_bets
    &&& room2.total_not_bets == room1.total_not_bets
    &&& room2.bets_made@.len() == room1.bets_made@.len()
    &&& forall|k: int|
        0 <= k < room1.bets_made@.len() ==> (#[trigger] room2.bets_made@[k]).0
            == room1.bets_made@[k].0
}

/// Rooms preserving bettors and tallies preserve every sum over a slot.
pub proof fn lemma_rooms_sums_congruent(rooms1: Seq<RoomDetails>, rooms2: Seq<RoomDetails>)
    requires
        rooms1.len() == rooms2.len(),
        forall|j: int|
            0 <= j < rooms1.len() ==> room_counts_preserved(
                rooms1[j],
                #[trigger] rooms2[j],
            ),
    ensures
        sum_of_room_pots(rooms2) == sum_of_room_pots(rooms1),
        sum_of_room_hot_tallies(rooms2) == sum_of_room_hot_tallies(rooms1),
        sum_of_room_not_tallies(rooms2) == sum_of_room_not_tallies(rooms1),
        forall|p: Seq<u8>|
            count_of_bettor_in_rooms(rooms2, p) == count_of_bettor_in_rooms(rooms1, p),
    decreases rooms1.len(),
{
    if rooms1.len() == 0 {
        assert forall|p: Seq<u8>|
            count_of_bettor_in_rooms(rooms2, p) == count_of_bettor_in_rooms(rooms1, p) by {
            assert(count_of_bettor_in_rooms(rooms2, p) == 0);
            assert(count_of_bettor_in_rooms(rooms1, p) == 0);
        }
    } else {
        let head1 = rooms1.drop_last();
        let head2 = rooms2.drop_last();
        assert forall|j: int|
            0 <= j < head1.len() implies room_counts_preserved(
                head1[j],
                #[trigger] head2[j],
            ) by {
            assert(head2[j] == rooms2[j]);
            assert(head1[j] == rooms1[j]);
        }
        lemma_rooms_sums_congruent(head1, head2);
        assert(rooms2.last() == rooms2[rooms1.len() - 1]);
        assert(rooms1.last() == rooms1[rooms1.len() - 1]);
        let last1 = rooms1.last();
        let last2 = rooms2.last();
        assert(room_counts_preserved(last1, last2));
        assert forall|p: Seq<u8>|
            count_of_bettor_in_rooms(rooms2, p) == count_of_bettor_in_rooms(rooms1, p) by {
            lemma_bets_sums_congruent_keys_only(last1.bets_made@, last2.bets_made@, p);
            assert(count_of_bettor_in_rooms(rooms2, p) == count_of_bettor_in_rooms(head2, p)
                + count_of_bettor_in_bets(last2.bets_made@, p));
            assert(count_of_bettor_in_rooms(rooms1, p) == count_of_bettor_in_rooms(head1, p)
                + count_of_bettor_in_bets(last1.bets_made@, p));
        }
    }
}

/// Bets agreeing pointwise on their bettors count every principal alike.
pub proof fn lemma_bets_sums_congruent_keys_only(
    bets1: Seq<(BetMaker, BetDetails)>,
    bets2: Seq<(BetMaker, BetDetails)>,
    bettor: Seq<u8>,
)
    requires
        bets1.len() == bets2.len(),
        forall|k: int| 0 <= k < bets1.len() ==> (#[trigger] bets2[k]).0 == bets1[k].0,
    ensures
        count_of_bettor_in_bets(bets2, bettor) == count_of_bettor_in_bets(bets1, bettor),
    decreases bets1.len(),
{
    if bets1.len() > 0 {
        let head1 = bets1.drop_last();
        let head2 = bets2.drop_last();
        assert forall|k: int|
            0 <= k < head1.len() implies (#[trigger] head2[k]).0 == head1[k].0 by {
            assert(head2[k] == bets2[k]);
            assert(head1[k] == bets1[k]);
        }
        lemma_bets_sums_congruent_keys_only(head1, head2, bettor);
        assert(bets2.last() == bets2[bets1.len() - 1]);
        assert(bets1.last() == bets1[bets1.len() - 1]);
    }
}

// ---------------------------------------------------------------------------
// The two directions cover every bet
// ---------------------------------------------------------------------------

/// Every bet votes either `Hot` or `Not`, so the two counts add up to the
/// number of bets made.
pub proof fn lemma_counts_of_directions_cover(bets: Seq<(BetMaker, BetDetails)>)
    ensures
        count_of_direction(bets, BetDirection::Hot) + count_of_direction(bets, BetDirection::Not)
            == bets.len(),
    decreases bets.len(),
{
    if bets.len() > 0 {
        lemma_counts_of_directions_cover(bets.drop_last());
    }
}

} // verus!
