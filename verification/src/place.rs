//! The bet placement protocol.
//!
//! A bet is accepted only from a logged-in principal, only while the contest
//! window is open, and only once per principal per post. An accepted bet
//! lands in the currently active room of the ongoing slot; the bet that would
//! overfill a room spills into a fresh room instead. The per-room tallies and
//! the post-wide aggregates move with it.

use vstd::prelude::*;

use crate::bets::{
    BetDetails, BetDirection, BetMaker, BetOnCurrentlyViewingPostError, BetPayout, BettingStatus,
    HotOrNotDetails, RoomBetPossibleOutcomes, RoomDetails, SlotDetails, SlotId, ROOM_CAPACITY,
};
use crate::lemmas::{
    lemma_count_of_bettor_in_bets_push, lemma_count_of_bettor_in_history_insert,
    lemma_count_of_bettor_in_history_nonneg, lemma_count_of_bettor_in_history_update,
    lemma_count_of_bettor_in_rooms_push, lemma_count_of_bettor_in_rooms_update,
    lemma_count_of_direction_push, lemma_room_hot_tally_le_sum, lemma_room_not_tally_le_sum,
    lemma_room_pot_le_sum, lemma_slot_hot_tallies_le_history_sum, lemma_slot_index_unique,
    lemma_slot_not_tallies_le_history_sum, lemma_slot_pots_le_history_sum,
    lemma_sum_of_bet_amounts_push, lemma_sum_of_history_hot_tallies_insert,
    lemma_sum_of_history_hot_tallies_update, lemma_sum_of_history_not_tallies_insert,
    lemma_sum_of_history_not_tallies_update, lemma_sum_of_history_pots_insert,
    lemma_sum_of_history_pots_update, lemma_sum_of_room_hot_tallies_push,
    lemma_sum_of_room_hot_tallies_update, lemma_sum_of_room_not_tallies_push,
    lemma_sum_of_room_not_tallies_update, lemma_sum_of_room_pots_push,
    lemma_sum_of_room_pots_update,
};
use crate::model::{
    contest_closed, count_of_bettor_in_bets, count_of_bettor_in_history, count_of_bettor_in_rooms,
    details_wf, history_has_bettor, history_has_slot, history_ordered,
    history_wf, one_bet_per_bettor, ongoing_slot_id, room_wf, slot_index_in_history, slot_wf,
    sum_of_history_hot_tallies, sum_of_history_not_tallies, sum_of_history_pots,
    sum_of_room_hot_tallies, sum_of_room_not_tallies, sum_of_room_pots,
};
use crate::post::Post;
use crate::principal_id::{anonymous_bytes, PrincipalId};
use crate::status::spec_betting_status;
use crate::MAXIMUM_NUMBER_OF_SLOTS;

verus! {

// ---------------------------------------------------------------------------
// What an accepted bet does to the state, stated over the model
// ---------------------------------------------------------------------------

/// The recorded entry is the given bet, not yet tabulated.
pub open spec fn bet_entry_matches(
    entry: (BetMaker, BetDetails),
    bettor: Seq<u8>,
    bet_amount: u64,
    direction: BetDirection,
    canister: Seq<u8>,
) -> bool {
    &&& entry.0@ == bettor
    &&& entry.1.amount == bet_amount
    &&& entry.1.bet_direction == direction
    &&& entry.1.payout == BetPayout::NotCalculatedYet
    &&& entry.1.bet_maker_canister_id@ == canister
}

/// The new room is the old with the given bet appended and its tallies moved
/// accordingly.
pub open spec fn room_with_added_bet(
    old_room: RoomDetails,
    new_room: RoomDetails,
    bettor: Seq<u8>,
    bet_amount: u64,
    direction: BetDirection,
    canister: Seq<u8>,
) -> bool {
    &&& new_room.bets_made@.len() == old_room.bets_made@.len() + 1
    &&& new_room.bets_made@.drop_last() == old_room.bets_made@
    &&& bet_entry_matches(new_room.bets_made@.last(), bettor, bet_amount, direction, canister)
    &&& new_room.bet_outcome == old_room.bet_outcome
    &&& new_room.room_bets_total_pot == old_room.room_bets_total_pot + bet_amount
    &&& new_room.total_hot_bets == old_room.total_hot_bets + (if direction == BetDirection::Hot {
        1int
    } else {
        0int
    })
    &&& new_room.total_not_bets == old_room.total_not_bets + (if direction == BetDirection::Not {
        1int
    } else {
        0int
    })
}

/// The room holds nothing but the given bet.
pub open spec fn fresh_room_with_bet(
    room: RoomDetails,
    bettor: Seq<u8>,
    bet_amount: u64,
    direction: BetDirection,
    canister: Seq<u8>,
) -> bool {
    &&& room.bets_made@.len() == 1
    &&& bet_entry_matches(room.bets_made@[0], bettor, bet_amount, direction, canister)
    &&& room.bet_outcome == RoomBetPossibleOutcomes::BetOngoing
    &&& room.room_bets_total_pot == bet_amount
    &&& room.total_hot_bets == (if direction == BetDirection::Hot {
        1int
    } else {
        0int
    })
    &&& room.total_not_bets == (if direction == BetDirection::Not {
        1int
    } else {
        0int
    })
}

/// The new slot is the old with the given bet placed in its active room: in a
/// fresh first room while none exists, in the last room while it has space,
/// and spilling into a fresh next room otherwise.
pub open spec fn slot_with_added_bet(
    old_slot: SlotDetails,
    new_slot: SlotDetails,
    bettor: Seq<u8>,
    bet_amount: u64,
    direction: BetDirection,
    canister: Seq<u8>,
) -> bool {
    let old_rooms = old_slot.room_details@;
    let new_rooms = new_slot.room_details@;
    if old_rooms.len() == 0 {
        &&& new_rooms.len() == 1
        &&& fresh_room_with_bet(new_rooms[0], bettor, bet_amount, direction, canister)
    } else if old_rooms.last().bets_made@.len() < ROOM_CAPACITY {
        &&& new_rooms.len() == old_rooms.len()
        &&& new_rooms.drop_last() == old_rooms.drop_last()
        &&& room_with_added_bet(
            old_rooms.last(),
            new_rooms.last(),
            bettor,
            bet_amount,
            direction,
            canister,
        )
    } else {
        &&& new_rooms.len() == old_rooms.len() + 1
        &&& new_rooms.drop_last() == old_rooms
        &&& fresh_room_with_bet(new_rooms.last(), bettor, bet_amount, direction, canister)
    }
}

/// The new history is the old with a slot holding only the given bet spliced
/// in at position `i`.
pub open spec fn history_inserts_slot_at(
    old_history: Seq<(SlotId, SlotDetails)>,
    new_history: Seq<(SlotId, SlotDetails)>,
    slot: SlotId,
    i: int,
    bettor: Seq<u8>,
    bet_amount: u64,
    direction: BetDirection,
    canister: Seq<u8>,
) -> bool {
    &&& 0 <= i <= old_history.len()
    &&& new_history.len() == old_history.len() + 1
    &&& (forall|k: int| 0 <= k < i ==> new_history[k] == old_history[k])
    &&& (forall|k: int| i <= k < old_history.len() ==> new_history[k + 1] == old_history[k])
    &&& new_history[i].0 == slot
    &&& new_history[i].1.room_details@.len() == 1
    &&& fresh_room_with_bet(
        new_history[i].1.room_details@[0],
        bettor,
        bet_amount,
        direction,
        canister,
    )
}

/// The new history records exactly one more bet than the old: the given one,
/// in the given slot.
pub open spec fn history_with_added_bet(
    old_history: Seq<(SlotId, SlotDetails)>,
    new_history: Seq<(SlotId, SlotDetails)>,
    slot: SlotId,
    bettor: Seq<u8>,
    bet_amount: u64,
    direction: BetDirection,
    canister: Seq<u8>,
) -> bool {
    if history_has_slot(old_history, slot) {
        let i = slot_index_in_history(old_history, slot);
        &&& new_history.len() == old_history.len()
        &&& (forall|k: int| 0 <= k < old_history.len() && k != i ==> new_history[k]
            == old_history[k])
        &&& new_history[i].0 == slot
        &&& slot_with_added_bet(
            old_history[i].1,
            new_history[i].1,
            bettor,
            bet_amount,
            direction,
            canister,
        )
    } else {
        exists|i: int|
            #[trigger] history_inserts_slot_at(
                old_history,
                new_history,
                slot,
                i,
                bettor,
                bet_amount,
                direction,
                canister,
            )
    }
}

/// The machine-width bounds under which placing this bet cannot overflow any
/// counter: the aggregates have room for one more bet of this amount.
pub open spec fn place_bet_fits(post: Post, bet_amount: u64, direction: BetDirection) -> bool {
    &&& post.aggregates().total_amount_bet + bet_amount <= u64::MAX
    &&& (direction == BetDirection::Hot ==> post.aggregates().total_number_of_hot_bets
        < u64::MAX)
    &&& (direction == BetDirection::Not ==> post.aggregates().total_number_of_not_bets
        < u64::MAX)
}

// ---------------------------------------------------------------------------
// Mutable access into the nested vectors
// ---------------------------------------------------------------------------

pub(crate) fn history_entry_mut(history: &mut Vec<(SlotId, SlotDetails)>, i: usize) -> (entry: &mut (
    SlotId,
    SlotDetails,
))
    requires
        i < old(history)@.len(),
    ensures
        *entry == old(history)@[i as int],
        final(history)@ == old(history)@.update(i as int, *final(entry)),
{
    &mut history[i]
}

pub(crate) fn room_mut(rooms: &mut Vec<RoomDetails>, j: usize) -> (room: &mut RoomDetails)
    requires
        j < old(rooms)@.len(),
    ensures
        *room == old(rooms)@[j as int],
        final(rooms)@ == old(rooms)@.update(j as int, *final(room)),
{
    &mut rooms[j]
}

// ---------------------------------------------------------------------------
// Finding the ongoing slot's entry, materializing it if need be
// ---------------------------------------------------------------------------

/// Returns the index of the entry for `slot`, splicing in an empty one at its
/// ordered position when the history has none.
#[verifier::loop_isolation(false)]
fn find_or_insert_slot(history: &mut Vec<(SlotId, SlotDetails)>, slot: SlotId) -> (i: usize)
    requires
        history_ordered(old(history)@),
    ensures
        i < final(history)@.len(),
        i <= old(history)@.len(),
        final(history)@[i as int].0 == slot,
        history_ordered(final(history)@),
        history_has_slot(old(history)@, slot) ==> final(history)@ == old(history)@ && i as int
            == slot_index_in_history(old(history)@, slot),
        !history_has_slot(old(history)@, slot) ==> final(history)@ == old(history)@.insert(
            i as int,
            final(history)@[i as int],
        ) && final(history)@[i as int].1.room_details@.len() == 0,
{
    let n = history.len();
    let mut i: usize = 0;
    while i < n && history[i].0 < slot
        invariant
            i <= n,
            forall|k: int| 0 <= k < i ==> (#[trigger] history@[k]).0 < slot,
        decreases n - i,
    {
        i += 1;
    }
    if i < n && history[i].0 == slot {
        proof {
            lemma_slot_index_unique(history@, slot, i as int);
        }
        return i;
    }
    proof {
        assert(forall|k: int| i <= k < n ==> (#[trigger] history@[k]).0 > slot) by {
            assert forall|k: int| i <= k < n implies (#[trigger] history@[k]).0 > slot by {
                if k > i as int {
                    assert(history@[i as int].0 < history@[k].0);
                }
            }
        }
        assert(!history_has_slot(history@, slot));
    }
    let ghost before = history@;
    let empty_slot_details = SlotDetails { room_details: Vec::new() };
    let new_entry = (slot, empty_slot_details);
    let ghost entry_snapshot = new_entry;
    history.insert(i, new_entry);
    proof {
        before.insert_ensures(i as int, entry_snapshot);
        assert(history@[i as int] == entry_snapshot);
        assert forall|a: int, b: int| 0 <= a < b < history@.len() implies (
        #[trigger] history@[a]).0 < (#[trigger] history@[b]).0 by {
            if b < i as int {
                assert(history@[a] == before[a]);
                assert(history@[b] == before[b]);
            } else if b == i as int {
                assert(history@[a] == before[a]);
                assert(before[a].0 < slot);
            } else {
                assert(history@[b] == before[b - 1]);
                assert(before[b - 1].0 > slot);
                if a < i as int {
                    assert(history@[a] == before[a]);
                    assert(before[a].0 < slot);
                } else if a == i as int {
                    assert(history@[a].0 == slot);
                } else {
                    assert(history@[a] == before[a - 1]);
                    assert(before[a - 1].0 < before[b - 1].0);
                }
            }
        }
    }
    i
}

// ---------------------------------------------------------------------------
// How one added bet moves the sums, counts and invariant
// ---------------------------------------------------------------------------

/// A room holding nothing but the given bet is well-formed, and counts one
/// bet for the bettor and none for anyone else.
proof fn lemma_fresh_room_wf(
    room: RoomDetails,
    bettor: Seq<u8>,
    bet_amount: u64,
    direction: BetDirection,
    canister: Seq<u8>,
)
    requires
        fresh_room_with_bet(room, bettor, bet_amount, direction, canister),
    ensures
        room_wf(room),
        forall|p: Seq<u8>|
            count_of_bettor_in_bets(room.bets_made@, p) == (if p == bettor {
                1int
            } else {
                0int
            }),
{
    let bets = room.bets_made@;
    let empty = Seq::<(BetMaker, BetDetails)>::empty();
    assert(bets =~= empty.push(bets[0]));
    lemma_sum_of_bet_amounts_push(empty, bets[0]);
    lemma_count_of_direction_push(empty, BetDirection::Hot, bets[0]);
    lemma_count_of_direction_push(empty, BetDirection::Not, bets[0]);
    assert forall|p: Seq<u8>|
        count_of_bettor_in_bets(room.bets_made@, p) == (if p == bettor {
            1int
        } else {
            0int
        }) by {
        lemma_count_of_bettor_in_bets_push(empty, p, bets[0]);
    }
}

/// A well-formed room stays well-formed when a bet is appended within
/// capacity, and only the bettor's count rises, by one.
proof fn lemma_added_bet_room_wf(
    old_room: RoomDetails,
    new_room: RoomDetails,
    bettor: Seq<u8>,
    bet_amount: u64,
    direction: BetDirection,
    canister: Seq<u8>,
)
    requires
        room_wf(old_room),
        old_room.bets_made@.len() < ROOM_CAPACITY,
        room_with_added_bet(old_room, new_room, bettor, bet_amount, direction, canister),
    ensures
        room_wf(new_room),
        forall|p: Seq<u8>|
            count_of_bettor_in_bets(new_room.bets_made@, p) == count_of_bettor_in_bets(
                old_room.bets_made@,
                p,
            ) + (if p == bettor {
                1int
            } else {
                0int
            }),
{
    let old_bets = old_room.bets_made@;
    let new_bets = new_room.bets_made@;
    assert(new_bets =~= old_bets.push(new_bets.last()));
    lemma_sum_of_bet_amounts_push(old_bets, new_bets.last());
    lemma_count_of_direction_push(old_bets, BetDirection::Hot, new_bets.last());
    lemma_count_of_direction_push(old_bets, BetDirection::Not, new_bets.last());
    assert forall|p: Seq<u8>|
        count_of_bettor_in_bets(new_room.bets_made@, p) == count_of_bettor_in_bets(
            old_room.bets_made@,
            p,
        ) + (if p == bettor {
            1int
        } else {
            0int
        }) by {
        lemma_count_of_bettor_in_bets_push(old_bets, p, new_bets.last());
    }
}

/// The whole effect of one accepted bet on the history: the invariant is
/// preserved, every post-wide sum moves by exactly this bet's contribution,
/// and only this bettor's count rises.
proof fn lemma_place_bet_state_change(
    h0: Seq<(SlotId, SlotDetails)>,
    h1: Seq<(SlotId, SlotDetails)>,
    h2: Seq<(SlotId, SlotDetails)>,
    i: int,
    slot: SlotId,
    bettor: Seq<u8>,
    bet_amount: u64,
    direction: BetDirection,
    canister: Seq<u8>,
)
    requires
        history_wf(h0),
        one_bet_per_bettor(h0),
        count_of_bettor_in_history(h0, bettor) == 0,
        1 <= slot <= MAXIMUM_NUMBER_OF_SLOTS,
        0 <= i < h1.len(),
        h1[i].0 == slot,
        history_ordered(h1),
        history_has_slot(h0, slot) ==> h1 == h0 && i == slot_index_in_history(h0, slot),
        !history_has_slot(h0, slot) ==> i <= h0.len() && h1 == h0.insert(i, h1[i])
            && h1[i].1.room_details@.len() == 0,
        h2.len() == h1.len(),
        h2 == h1.update(i, h2[i]),
        h2[i].0 == slot,
        slot_with_added_bet(h1[i].1, h2[i].1, bettor, bet_amount, direction, canister),
    ensures
        history_with_added_bet(h0, h2, slot, bettor, bet_amount, direction, canister),
        history_wf(h2),
        h2.len() >= 1,
        sum_of_history_pots(h2) == sum_of_history_pots(h0) + bet_amount,
        sum_of_history_hot_tallies(h2) == sum_of_history_hot_tallies(h0) + (
        if direction == BetDirection::Hot {
            1int
        } else {
            0int
        }),
        sum_of_history_not_tallies(h2) == sum_of_history_not_tallies(h0) + (
        if direction == BetDirection::Not {
            1int
        } else {
            0int
        }),
        one_bet_per_bettor(h2),
{
    let existed = history_has_slot(h0, slot);
    let old_slot = h1[i].1;
    let new_slot = h2[i].1;
    let rooms1 = old_slot.room_details@;
    let rooms2 = new_slot.room_details@;
    let delta_hot: int = if direction == BetDirection::Hot {
        1int
    } else {
        0int
    };
    let delta_not: int = if direction == BetDirection::Not {
        1int
    } else {
        0int
    };

    // Step 1: the new slot's rooms. Establish its sums, its well-formedness,
    // and each principal's count within it, in each of the three shapes of
    // slot_with_added_bet.
    if rooms1.len() == 0 {
        let fresh = rooms2[0];
        assert(rooms2 =~= rooms1.push(fresh));
        lemma_fresh_room_wf(fresh, bettor, bet_amount, direction, canister);
        lemma_sum_of_room_pots_push(rooms1, fresh);
        lemma_sum_of_room_hot_tallies_push(rooms1, fresh);
        lemma_sum_of_room_not_tallies_push(rooms1, fresh);
        assert forall|p: Seq<u8>|
            count_of_bettor_in_rooms(rooms2, p) == count_of_bettor_in_rooms(rooms1, p) + (
            if p == bettor {
                1int
            } else {
                0int
            }) by {
            lemma_count_of_bettor_in_rooms_push(rooms1, p, fresh);
        }
    } else {
        assert(existed) by {
            if !existed {
                assert(h1[i].1.room_details@.len() == 0);
            }
        }
        assert(slot_wf(h0[i].1));
        let last = rooms1.len() - 1;
        assert(room_wf(rooms1[last]));
        if rooms1.last().bets_made@.len() < ROOM_CAPACITY {
            let updated = rooms2.last();
            assert forall|k: int| 0 <= k < rooms2.len() implies rooms2[k] == rooms1.update(
                last,
                updated,
            )[k] by {
                if k < last {
                    assert(rooms2[k] == rooms2.drop_last()[k]);
                    assert(rooms1[k] == rooms1.drop_last()[k]);
                }
            }
            assert(rooms2 =~= rooms1.update(last, updated));
            lemma_added_bet_room_wf(
                rooms1[last],
                updated,
                bettor,
                bet_amount,
                direction,
                canister,
            );
            lemma_sum_of_room_pots_update(rooms1, last, updated);
            lemma_sum_of_room_hot_tallies_update(rooms1, last, updated);
            lemma_sum_of_room_not_tallies_update(rooms1, last, updated);
            assert forall|p: Seq<u8>|
                count_of_bettor_in_rooms(rooms2, p) == count_of_bettor_in_rooms(rooms1, p) + (
                if p == bettor {
                    1int
                } else {
                    0int
                }) by {
                lemma_count_of_bettor_in_rooms_update(rooms1, p, last, updated);
            }
        } else {
            let fresh = rooms2.last();
            assert forall|k: int| 0 <= k < rooms2.len() implies rooms2[k] == rooms1.push(
                fresh,
            )[k] by {
                if k < rooms1.len() {
                    assert(rooms2[k] == rooms2.drop_last()[k]);
                }
            }
            assert(rooms2 =~= rooms1.push(fresh));
            lemma_fresh_room_wf(fresh, bettor, bet_amount, direction, canister);
            lemma_sum_of_room_pots_push(rooms1, fresh);
            lemma_sum_of_room_hot_tallies_push(rooms1, fresh);
            lemma_sum_of_room_not_tallies_push(rooms1, fresh);
            assert forall|p: Seq<u8>|
                count_of_bettor_in_rooms(rooms2, p) == count_of_bettor_in_rooms(rooms1, p) + (
                if p == bettor {
                    1int
                } else {
                    0int
                }) by {
                lemma_count_of_bettor_in_rooms_push(rooms1, p, fresh);
            }
        }
    }
    assert(sum_of_room_pots(rooms2) == sum_of_room_pots(rooms1) + bet_amount);
    assert(sum_of_room_hot_tallies(rooms2) == sum_of_room_hot_tallies(rooms1) + delta_hot);
    assert(sum_of_room_not_tallies(rooms2) == sum_of_room_not_tallies(rooms1) + delta_not);
    assert(slot_wf(new_slot)) by {
        assert forall|j: int| 0 <= j < rooms2.len() implies room_wf(#[trigger] rooms2[j]) by {
            if rooms1.len() > 0 && j < rooms1.len() - 1 {
                assert(rooms2[j] == rooms1[j]);
                assert(room_wf(rooms1[j]));
            }
        }
    }

    // Step 2: the whole history.
    if existed {
        assert(h2 == h0.update(i, h2[i]));
        lemma_sum_of_history_pots_update(h0, i, h2[i]);
        lemma_sum_of_history_hot_tallies_update(h0, i, h2[i]);
        lemma_sum_of_history_not_tallies_update(h0, i, h2[i]);
        assert forall|p: Seq<u8>|
            count_of_bettor_in_history(h2, p) == count_of_bettor_in_history(h0, p) + (
            if p == bettor {
                1int
            } else {
                0int
            }) by {
            lemma_count_of_bettor_in_history_update(h0, p, i, h2[i]);
        }
        assert(history_wf(h2)) by {
            assert forall|k: int| 0 <= k < h2.len() implies 1 <= (#[trigger] h2[k]).0
                <= MAXIMUM_NUMBER_OF_SLOTS && slot_wf(h2[k].1) by {
                if k != i {
                    assert(h2[k] == h0[k]);
                    assert(1 <= h0[k].0 <= MAXIMUM_NUMBER_OF_SLOTS);
                    assert(slot_wf(h0[k].1));
                }
            }
            assert forall|a: int, b: int| 0 <= a < b < h2.len() implies (#[trigger] h2[a]).0 < (
            #[trigger] h2[b]).0 by {
                assert(h2[a].0 == h0[a].0);
                assert(h2[b].0 == h0[b].0);
                assert(h0[a].0 < h0[b].0);
            }
        }
        assert(history_with_added_bet(h0, h2, slot, bettor, bet_amount, direction, canister));
    } else {
        h0.insert_ensures(i, h1[i]);
        h0.insert_ensures(i, h2[i]);
        assert(h2 =~= h0.insert(i, h2[i]));
        lemma_sum_of_history_pots_insert(h0, i, h2[i]);
        lemma_sum_of_history_hot_tallies_insert(h0, i, h2[i]);
        lemma_sum_of_history_not_tallies_insert(h0, i, h2[i]);
        assert forall|p: Seq<u8>|
            count_of_bettor_in_history(h2, p) == count_of_bettor_in_history(h0, p) + (
            if p == bettor {
                1int
            } else {
                0int
            }) by {
            lemma_count_of_bettor_in_history_insert(h0, p, i, h2[i]);
        }
        assert(history_wf(h2)) by {
            assert forall|k: int| 0 <= k < h2.len() implies 1 <= (#[trigger] h2[k]).0
                <= MAXIMUM_NUMBER_OF_SLOTS && slot_wf(h2[k].1) by {
                if k < i {
                    assert(h2[k] == h0[k]);
                    assert(1 <= h0[k].0 <= MAXIMUM_NUMBER_OF_SLOTS);
                    assert(slot_wf(h0[k].1));
                } else if k > i {
                    assert(h2[k] == h0[k - 1]);
                    assert(1 <= h0[k - 1].0 <= MAXIMUM_NUMBER_OF_SLOTS);
                    assert(slot_wf(h0[k - 1].1));
                }
            }
            assert forall|a: int, b: int| 0 <= a < b < h2.len() implies (#[trigger] h2[a]).0 < (
            #[trigger] h2[b]).0 by {
                assert(h2[a].0 == h1[a].0);
                assert(h2[b].0 == h1[b].0);
                assert(h1[a].0 < h1[b].0);
            }
        }
        assert(history_inserts_slot_at(
            h0,
            h2,
            slot,
            i,
            bettor,
            bet_amount,
            direction,
            canister,
        ));
        assert(history_with_added_bet(h0, h2, slot, bettor, bet_amount, direction, canister));
    }
    assert forall|p: Seq<u8>| count_of_bettor_in_history(h2, p) <= 1 by {
        if p == bettor {
            assert(count_of_bettor_in_history(h2, p) == 1);
        } else {
            assert(count_of_bettor_in_history(h0, p) <= 1);
        }
    }
}

// ---------------------------------------------------------------------------
// The placement protocol itself
// ---------------------------------------------------------------------------

impl Post {
    /// Places one directional bet on this post.
    ///
    /// Refused when the caller is the anonymous sentinel, when the contest
    /// window has closed, or when the caller already holds a bet anywhere on
    /// the post; each refusal leaves the post untouched. An accepted bet is
    /// recorded in the active room of the ongoing slot, spilling into a fresh
    /// room when the active one is full, and the updated status is returned.
    pub fn place_hot_or_not_bet(
        &mut self,
        bet_maker_principal_id: &PrincipalId,
        bet_maker_canister_id: &PrincipalId,
        bet_amount: u64,
        bet_direction: &BetDirection,
        current_time_when_request_being_made: u64,
    ) -> (res: Result<BettingStatus, BetOnCurrentlyViewingPostError>)
        requires
            old(self).wf(),
            old(self).created_at <= current_time_when_request_being_made,
            place_bet_fits(*old(self), bet_amount, *bet_direction),
        ensures
            final(self).wf(),
            final(self).id == old(self).id,
            final(self).created_at == old(self).created_at,
            res is Err ==> *final(self) == *old(self),
            res == Result::<BettingStatus, BetOnCurrentlyViewingPostError>::Err(
                BetOnCurrentlyViewingPostError::UserNotLoggedIn,
            ) <==> bet_maker_principal_id@ == anonymous_bytes(),
            res == Result::<BettingStatus, BetOnCurrentlyViewingPostError>::Err(
                BetOnCurrentlyViewingPostError::BettingClosed,
            ) <==> (bet_maker_principal_id@ != anonymous_bytes() && contest_closed(
                old(self).created_at,
                current_time_when_request_being_made,
            )),
            res == Result::<BettingStatus, BetOnCurrentlyViewingPostError>::Err(
                BetOnCurrentlyViewingPostError::UserAlreadyParticipatedInThisPost,
            ) <==> (bet_maker_principal_id@ != anonymous_bytes() && !contest_closed(
                old(self).created_at,
                current_time_when_request_being_made,
            ) && history_has_bettor(old(self).history(), bet_maker_principal_id@)),
            res is Ok <==> (bet_maker_principal_id@ != anonymous_bytes() && !contest_closed(
                old(self).created_at,
                current_time_when_request_being_made,
            ) && !history_has_bettor(old(self).history(), bet_maker_principal_id@)),
            res is Ok ==> ({
                let new_history = final(self).history();
                &&& final(self).hot_or_not_details is Some
                &&& history_with_added_bet(
                    old(self).history(),
                    new_history,
                    ongoing_slot_id(old(self).created_at, current_time_when_request_being_made),
                    bet_maker_principal_id@,
                    bet_amount,
                    *bet_direction,
                    bet_maker_canister_id@,
                )
                &&& final(self).aggregates().total_amount_bet == old(
                    self,
                ).aggregates().total_amount_bet + bet_amount
                &&& final(self).aggregates().total_number_of_hot_bets == old(
                    self,
                ).aggregates().total_number_of_hot_bets + (
                if *bet_direction == BetDirection::Hot {
                    1int
                } else {
                    0int
                })
                &&& final(self).aggregates().total_number_of_not_bets == old(
                    self,
                ).aggregates().total_number_of_not_bets + (
                if *bet_direction == BetDirection::Not {
                    1int
                } else {
                    0int
                })
                &&& new_history.len() >= 1
                &&& new_history.last().1.room_details@.len() >= 1
                &&& res == Result::<BettingStatus, BetOnCurrentlyViewingPostError>::Ok(
                    (BettingStatus::BettingOpen {
                        started_at: old(self).created_at,
                        number_of_participants: new_history.last().1.room_details@.last()
                            .bets_made@.len() as u8,
                        ongoing_slot: new_history.last().0,
                        ongoing_room: new_history.last().1.room_details@.len() as u64,
                        has_this_user_participated_in_this_post: Some(true),
                    }),
                )
            }),
    {
        if bet_maker_principal_id.is_anonymous() {
            return Err(BetOnCurrentlyViewingPostError::UserNotLoggedIn);
        }
        let betting_status = self.get_hot_or_not_betting_status_for_this_post(
            current_time_when_request_being_made,
            bet_maker_principal_id,
        );
        match betting_status {
            BettingStatus::BettingClosed => Err(BetOnCurrentlyViewingPostError::BettingClosed),
            BettingStatus::BettingOpen {
                ongoing_slot,
                has_this_user_participated_in_this_post,
                ..
            } => {
                if has_this_user_participated_in_this_post.unwrap() {
                    return Err(BetOnCurrentlyViewingPostError::UserAlreadyParticipatedInThisPost);
                }
                let ghost h0 = self.history();
                let ghost old_aggregates = self.aggregates();
                proof {
                    assert(ongoing_slot == ongoing_slot_id(
                        self.created_at,
                        current_time_when_request_being_made,
                    ));
                    assert(!history_has_bettor(h0, bet_maker_principal_id@));
                    lemma_count_of_bettor_in_history_nonneg(h0, bet_maker_principal_id@);
                    assert(count_of_bettor_in_history(h0, bet_maker_principal_id@) == 0);
                    assert(1 <= ongoing_slot <= MAXIMUM_NUMBER_OF_SLOTS);
                }
                let mut hot_or_not_details = match self.hot_or_not_details.take() {
                    Some(details) => details,
                    None => HotOrNotDetails::new(),
                };
                proof {
                    assert(hot_or_not_details.slot_history@ =~= h0);
                    assert(hot_or_not_details.aggregate_stats == old_aggregates);
                    assert(details_wf(hot_or_not_details));
                }
                let slot_index = find_or_insert_slot(
                    &mut hot_or_not_details.slot_history,
                    ongoing_slot,
                );
                let ghost h1 = hot_or_not_details.slot_history@;
                let ghost existed = history_has_slot(h0, ongoing_slot);
                proof {
                    if existed {
                        assert(h1 == h0);
                        assert(slot_index as int == slot_index_in_history(h0, ongoing_slot));
                        assert(slot_wf(h0[slot_index as int].1));
                    } else {
                        h0.insert_ensures(slot_index as int, h1[slot_index as int]);
                    }
                }
                let new_bet = BetDetails {
                    amount: bet_amount,
                    bet_direction: *bet_direction,
                    payout: BetPayout::NotCalculatedYet,
                    bet_maker_canister_id: bet_maker_canister_id.clone(),
                };
                let bet_entry = (bet_maker_principal_id.clone(), new_bet);
                let ghost bet_entry_snapshot = bet_entry;
                proof {
                    assert(bet_entry_matches(
                        bet_entry_snapshot,
                        bet_maker_principal_id@,
                        bet_amount,
                        *bet_direction,
                        bet_maker_canister_id@,
                    ));
                    // Bounds that the mutation below needs, all drawn from the
                    // aggregates having room for one more bet.
                    if existed {
                        let rooms0 = h0[slot_index as int].1.room_details@;
                        if rooms0.len() >= 1 {
                            let last = rooms0.len() - 1;
                            lemma_room_pot_le_sum(rooms0, last);
                            lemma_slot_pots_le_history_sum(h0, slot_index as int);
                            lemma_room_hot_tally_le_sum(rooms0, last);
                            lemma_slot_hot_tallies_le_history_sum(h0, slot_index as int);
                            lemma_room_not_tally_le_sum(rooms0, last);
                            lemma_slot_not_tallies_le_history_sum(h0, slot_index as int);
                        }
                    }
                }
                let slot_entry = history_entry_mut(
                    &mut hot_or_not_details.slot_history,
                    slot_index,
                );
                let ghost old_slot_details = h1[slot_index as int].1;
                let rooms_count = slot_entry.1.room_details.len();
                if rooms_count == 0 {
                    let mut room = RoomDetails::new();
                    room.bets_made.push(bet_entry);
                    room.room_bets_total_pot = bet_amount;
                    match bet_direction {
                        BetDirection::Hot => {
                            room.total_hot_bets = 1;
                        },
                        BetDirection::Not => {
                            room.total_not_bets = 1;
                        },
                    }
                    let ghost room_snapshot = room;
                    slot_entry.1.room_details.push(room);
                    proof {
                        assert(fresh_room_with_bet(
                            room_snapshot,
                            bet_maker_principal_id@,
                            bet_amount,
                            *bet_direction,
                            bet_maker_canister_id@,
                        ));
                        assert(slot_with_added_bet(
                            old_slot_details,
                            slot_entry.1,
                            bet_maker_principal_id@,
                            bet_amount,
                            *bet_direction,
                            bet_maker_canister_id@,
                        ));
                    }
                } else {
                    let last_room_index = rooms_count - 1;
                    if slot_entry.1.room_details[last_room_index].bets_made.len()
                        < ROOM_CAPACITY {
                        let room = room_mut(&mut slot_entry.1.room_details, last_room_index);
                        room.bets_made.push(bet_entry);
                        room.room_bets_total_pot = room.room_bets_total_pot + bet_amount;
                        match bet_direction {
                            BetDirection::Hot => {
                                room.total_hot_bets = room.total_hot_bets + 1;
                            },
                            BetDirection::Not => {
                                room.total_not_bets = room.total_not_bets + 1;
                            },
                        }
                        proof {
                            let rooms1 = old_slot_details.room_details@;
                            let new_rooms = slot_entry.1.room_details@;
                            assert(new_rooms.last().bets_made@.drop_last()
                                =~= rooms1.last().bets_made@);
                            assert(new_rooms.drop_last() =~= rooms1.drop_last());
                            assert(room_with_added_bet(
                                rooms1.last(),
                                new_rooms.last(),
                                bet_maker_principal_id@,
                                bet_amount,
                                *bet_direction,
                                bet_maker_canister_id@,
                            ));
                            assert(slot_with_added_bet(
                                old_slot_details,
                                slot_entry.1,
                                bet_maker_principal_id@,
                                bet_amount,
                                *bet_direction,
                                bet_maker_canister_id@,
                            ));
                        }
                    } else {
                        let mut room = RoomDetails::new();
                        room.bets_made.push(bet_entry);
                        room.room_bets_total_pot = bet_amount;
                        match bet_direction {
                            BetDirection::Hot => {
                                room.total_hot_bets = 1;
                            },
                            BetDirection::Not => {
                                room.total_not_bets = 1;
                            },
                        }
                        let ghost room_snapshot = room;
                        slot_entry.1.room_details.push(room);
                        proof {
                            assert(fresh_room_with_bet(
                                room_snapshot,
                                bet_maker_principal_id@,
                                bet_amount,
                                *bet_direction,
                                bet_maker_canister_id@,
                            ));
                            assert(slot_entry.1.room_details@.drop_last()
                                =~= old_slot_details.room_details@);
                            assert(slot_with_added_bet(
                                old_slot_details,
                                slot_entry.1,
                                bet_maker_principal_id@,
                                bet_amount,
                                *bet_direction,
                                bet_maker_canister_id@,
                            ));
                        }
                    }
                }
                let ghost h2 = hot_or_not_details.slot_history@;
                proof {
                    lemma_place_bet_state_change(
                        h0,
                        h1,
                        h2,
                        slot_index as int,
                        ongoing_slot,
                        bet_maker_principal_id@,
                        bet_amount,
                        *bet_direction,
                        bet_maker_canister_id@,
                    );
                }
                hot_or_not_details.aggregate_stats.total_amount_bet =
                    hot_or_not_details.aggregate_stats.total_amount_bet + bet_amount;
                match bet_direction {
                    BetDirection::Hot => {
                        hot_or_not_details.aggregate_stats.total_number_of_hot_bets =
                            hot_or_not_details.aggregate_stats.total_number_of_hot_bets + 1;
                    },
                    BetDirection::Not => {
                        hot_or_not_details.aggregate_stats.total_number_of_not_bets =
                            hot_or_not_details.aggregate_stats.total_number_of_not_bets + 1;
                    },
                }
                proof {
                    assert(details_wf(hot_or_not_details));
                }
                self.hot_or_not_details = Some(hot_or_not_details);
                let details_ref = self.hot_or_not_details.as_ref().unwrap();
                let last_slot_index = details_ref.slot_history.len() - 1;
                let last_slot = &details_ref.slot_history[last_slot_index];
                let rooms = &last_slot.1.room_details;
                proof {
                    assert(slot_wf(h2.last().1));
                    assert(room_wf(h2.last().1.room_details@.last()));
                }
                let last_room = &rooms[rooms.len() - 1];
                let number_of_participants = last_room.bets_made.len() as u8;
                Ok(
                    BettingStatus::BettingOpen {
                        started_at: self.created_at,
                        number_of_participants,
                        ongoing_slot: last_slot.0,
                        ongoing_room: rooms.len() as u64,
                        has_this_user_participated_in_this_post: Some(true),
                    },
                )
            },
        }
    }
}

} // verus!
