//! The outcome tabulation engine.
//!
//! Tabulating a slot walks its rooms in ascending room id order. Each room
//! still undecided has its winner chosen by comparing the two tallies, one
//! commission event is handed to the token balance, and every bet of the room
//! gets its payout written: winners take their stake times the winnings
//! multiplier less the creator's commission, losers take nothing, and under a
//! draw everyone takes their stake less the commission, all in truncating
//! integer arithmetic, multiplications first.

use vstd::prelude::*;

use crate::bets::{
    BetDetails, BetDirection, BetMaker, BetPayout, RoomBetPossibleOutcomes, RoomDetails, SlotId,
};
use crate::lemmas::{
    lemma_bets_sums_congruent, lemma_count_of_bettor_in_history_update,
    lemma_rooms_sums_congruent, lemma_slot_index_unique, lemma_sum_of_history_hot_tallies_update,
    lemma_sum_of_history_not_tallies_update, lemma_sum_of_history_pots_update,
    room_counts_preserved,
};
use crate::model::{
    count_of_bettor_in_history, details_wf, history_has_slot, history_wf, one_bet_per_bettor,
    room_wf, rooms_of_slot, slot_index_in_history, slot_wf,
};
use crate::place::{history_entry_mut, room_mut};
use crate::post::Post;
use crate::principal_id::PrincipalId;
use crate::status::find_slot_index;
use crate::token::{
    HotOrNotOutcomePayoutEvent, TokenBalance, TokenEvent,
    HOT_OR_NOT_BET_CREATOR_COMMISSION_PERCENTAGE, HOT_OR_NOT_BET_WINNINGS_MULTIPLIER,
};

verus! {

// ---------------------------------------------------------------------------
// The payout formula, stated over the model
// ---------------------------------------------------------------------------

/// The side a room settles on: whichever direction holds more bets, or a
/// draw when the tallies tie.
pub open spec fn spec_room_outcome(room: RoomDetails) -> RoomBetPossibleOutcomes {
    if room.total_hot_bets > room.total_not_bets {
        RoomBetPossibleOutcomes::HotWon
    } else if room.total_hot_bets < room.total_not_bets {
        RoomBetPossibleOutcomes::NotWon
    } else {
        RoomBetPossibleOutcomes::Draw
    }
}

/// A winner's payout: the stake doubled, less the creator's commission,
/// truncating once at the end.
pub open spec fn spec_winning_payout(bet_amount: u64) -> int {
    bet_amount * HOT_OR_NOT_BET_WINNINGS_MULTIPLIER * (100
        - HOT_OR_NOT_BET_CREATOR_COMMISSION_PERCENTAGE) / 100
}

/// Everyone's payout under a draw: the stake less the creator's commission.
pub open spec fn spec_draw_payout(bet_amount: u64) -> int {
    bet_amount * (100 - HOT_OR_NOT_BET_CREATOR_COMMISSION_PERCENTAGE) / 100
}

/// What one bet is paid under the given settled outcome.
pub open spec fn spec_bet_payout(bet: BetDetails, outcome: RoomBetPossibleOutcomes) -> int {
    match outcome {
        RoomBetPossibleOutcomes::HotWon => if bet.bet_direction == BetDirection::Hot {
            spec_winning_payout(bet.amount)
        } else {
            0
        },
        RoomBetPossibleOutcomes::NotWon => if bet.bet_direction == BetDirection::Not {
            spec_winning_payout(bet.amount)
        } else {
            0
        },
        RoomBetPossibleOutcomes::Draw => spec_draw_payout(bet.amount),
        RoomBetPossibleOutcomes::BetOngoing => 0,
    }
}

/// The creator's commission on a room: a fixed percentage of its pot.
pub open spec fn room_commission(room: RoomDetails) -> int {
    room.room_bets_total_pot * HOT_OR_NOT_BET_CREATOR_COMMISSION_PERCENTAGE / 100
}

/// The commission a room contributes at tabulation: nothing if it was
/// already settled earlier.
pub open spec fn room_commission_due(room: RoomDetails) -> int {
    if room.bet_outcome == RoomBetPossibleOutcomes::BetOngoing {
        room_commission(room)
    } else {
        0
    }
}

/// Total commission that tabulating these rooms pays out.
pub open spec fn total_commission(rooms: Seq<RoomDetails>) -> int
    decreases rooms.len(),
{
    if rooms.len() == 0 {
        0
    } else {
        total_commission(rooms.drop_last()) + room_commission_due(rooms.last())
    }
}

/// How many of these rooms are still undecided, each owed one event.
pub open spec fn ongoing_room_count(rooms: Seq<RoomDetails>) -> int
    decreases rooms.len(),
{
    if rooms.len() == 0 {
        0
    } else {
        ongoing_room_count(rooms.drop_last()) + if rooms.last().bet_outcome
            == RoomBetPossibleOutcomes::BetOngoing {
            1int
        } else {
            0int
        }
    }
}

// ---------------------------------------------------------------------------
// What tabulation does to a room, and the events it emits
// ---------------------------------------------------------------------------

/// The settled bet keeps everything but its payout, which is now calculated.
pub open spec fn bet_settled(
    old_entry: (BetMaker, BetDetails),
    new_entry: (BetMaker, BetDetails),
    outcome: RoomBetPossibleOutcomes,
) -> bool {
    &&& new_entry.0 == old_entry.0
    &&& new_entry.1.amount == old_entry.1.amount
    &&& new_entry.1.bet_direction == old_entry.1.bet_direction
    &&& new_entry.1.bet_maker_canister_id == old_entry.1.bet_maker_canister_id
    &&& new_entry.1.payout == BetPayout::Calculated(
        spec_bet_payout(old_entry.1, outcome) as u64,
    )
}

/// Tabulation leaves a settled room alone; an undecided room gets its
/// outcome decided and every bet's payout written, nothing else moving.
pub open spec fn room_tabulated(old_room: RoomDetails, new_room: RoomDetails) -> bool {
    if old_room.bet_outcome != RoomBetPossibleOutcomes::BetOngoing {
        new_room == old_room
    } else {
        &&& new_room.bet_outcome == spec_room_outcome(old_room)
        &&& new_room.room_bets_total_pot == old_room.room_bets_total_pot
        &&& new_room.total_hot_bets == old_room.total_hot_bets
        &&& new_room.total_not_bets == old_room.total_not_bets
        &&& new_room.bets_made@.len() == old_room.bets_made@.len()
        &&& forall|k: int|
            0 <= k < old_room.bets_made@.len() ==> bet_settled(
                old_room.bets_made@[k],
                #[trigger] new_room.bets_made@[k],
                spec_room_outcome(old_room),
            )
    }
}

/// The event is this room's commission, identified by post, slot and room.
pub open spec fn commission_event_matches(
    event: TokenEvent,
    post_canister: Seq<u8>,
    post_id: u64,
    slot_id: SlotId,
    room_id: int,
    room: RoomDetails,
    now: u64,
) -> bool {
    match event {
        TokenEvent::HotOrNotOutcomePayout { amount, details, timestamp } => {
            &&& amount == room_commission(room)
            &&& timestamp == now
            &&& match details {
                HotOrNotOutcomePayoutEvent::CommissionFromHotOrNotBet {
                    post_canister_id,
                    post_id: event_post_id,
                    slot_id: event_slot_id,
                    room_id: event_room_id,
                    room_pot_total_amount,
                } => {
                    &&& post_canister_id@ == post_canister
                    &&& event_post_id == post_id
                    &&& event_slot_id == slot_id
                    &&& event_room_id == room_id
                    &&& room_pot_total_amount == room.room_bets_total_pot
                },
            }
        },
    }
}

/// The emitted events are one commission event per room still undecided, in
/// ascending room id order.
pub open spec fn slot_events_match(
    events: Seq<TokenEvent>,
    rooms: Seq<RoomDetails>,
    post_canister: Seq<u8>,
    post_id: u64,
    slot_id: SlotId,
    now: u64,
) -> bool
    decreases rooms.len(),
{
    if rooms.len() == 0 {
        events.len() == 0
    } else if rooms.last().bet_outcome == RoomBetPossibleOutcomes::BetOngoing {
        &&& events.len() >= 1
        &&& slot_events_match(
            events.drop_last(),
            rooms.drop_last(),
            post_canister,
            post_id,
            slot_id,
            now,
        )
        &&& commission_event_matches(
            events.last(),
            post_canister,
            post_id,
            slot_id,
            rooms.len() as int,
            rooms.last(),
            now,
        )
    } else {
        slot_events_match(events, rooms.drop_last(), post_canister, post_id, slot_id, now)
    }
}

// ---------------------------------------------------------------------------
// The machine-width bounds tabulation needs
// ---------------------------------------------------------------------------

/// The two multiplications of the payout formula stay within range for this
/// bet under this outcome.
pub open spec fn bet_payout_fits(bet: BetDetails, outcome: RoomBetPossibleOutcomes) -> bool {
    match outcome {
        RoomBetPossibleOutcomes::HotWon => bet.bet_direction == BetDirection::Hot ==> bet.amount
            * HOT_OR_NOT_BET_WINNINGS_MULTIPLIER * (100
            - HOT_OR_NOT_BET_CREATOR_COMMISSION_PERCENTAGE) <= u64::MAX,
        RoomBetPossibleOutcomes::NotWon => bet.bet_direction == BetDirection::Not ==> bet.amount
            * HOT_OR_NOT_BET_WINNINGS_MULTIPLIER * (100
            - HOT_OR_NOT_BET_CREATOR_COMMISSION_PERCENTAGE) <= u64::MAX,
        RoomBetPossibleOutcomes::Draw => bet.amount * (100
            - HOT_OR_NOT_BET_CREATOR_COMMISSION_PERCENTAGE) <= u64::MAX,
        RoomBetPossibleOutcomes::BetOngoing => true,
    }
}

/// The commission and every payout of this room stay within range.
pub open spec fn room_payouts_fit(room: RoomDetails) -> bool {
    &&& room.room_bets_total_pot * HOT_OR_NOT_BET_CREATOR_COMMISSION_PERCENTAGE <= u64::MAX
    &&& forall|k: int|
        0 <= k < room.bets_made@.len() ==> bet_payout_fits(
            (#[trigger] room.bets_made@[k]).1,
            spec_room_outcome(room),
        )
}

/// The machine-width bounds under which tabulating this slot cannot overflow:
/// each undecided room's arithmetic fits, and the balance has room for the
/// whole commission.
pub open spec fn tabulation_fits(post: Post, slot_id: SlotId, balance: u64) -> bool {
    let rooms = rooms_of_slot(post.history(), slot_id);
    &&& balance + total_commission(rooms) <= u64::MAX
    &&& forall|j: int|
        0 <= j < rooms.len() && (#[trigger] rooms[j]).bet_outcome
            == RoomBetPossibleOutcomes::BetOngoing ==> room_payouts_fit(rooms[j])
}

// ---------------------------------------------------------------------------
// Small inductions over the rooms walked so far
// ---------------------------------------------------------------------------

proof fn lemma_total_commission_take_step(rooms: Seq<RoomDetails>, j: int)
    requires
        0 <= j < rooms.len(),
    ensures
        total_commission(rooms.take(j + 1)) == total_commission(rooms.take(j))
            + room_commission_due(rooms[j]),
{
    assert(rooms.take(j + 1).drop_last() =~= rooms.take(j));
    assert(rooms.take(j + 1).last() == rooms[j]);
}

proof fn lemma_ongoing_room_count_take_step(rooms: Seq<RoomDetails>, j: int)
    requires
        0 <= j < rooms.len(),
    ensures
        ongoing_room_count(rooms.take(j + 1)) == ongoing_room_count(rooms.take(j)) + if rooms[j]
            .bet_outcome == RoomBetPossibleOutcomes::BetOngoing {
            1int
        } else {
            0int
        },
{
    assert(rooms.take(j + 1).drop_last() =~= rooms.take(j));
    assert(rooms.take(j + 1).last() == rooms[j]);
}

proof fn lemma_room_commission_due_nonneg(room: RoomDetails)
    ensures
        room_commission_due(room) >= 0,
{
}

/// A prefix never pays more commission than the whole.
proof fn lemma_total_commission_take_le(rooms: Seq<RoomDetails>, j: int)
    requires
        0 <= j <= rooms.len(),
    ensures
        total_commission(rooms.take(j)) <= total_commission(rooms),
    decreases rooms.len() - j,
{
    if j == rooms.len() {
        assert(rooms.take(j) =~= rooms);
    } else {
        lemma_total_commission_take_step(rooms, j);
        lemma_room_commission_due_nonneg(rooms[j]);
        lemma_total_commission_take_le(rooms, j + 1);
    }
}

/// A settled room is still well-formed: the payout writes move no tally.
proof fn lemma_room_tabulated_wf(old_room: RoomDetails, new_room: RoomDetails)
    requires
        room_wf(old_room),
        room_tabulated(old_room, new_room),
    ensures
        room_wf(new_room),
        room_counts_preserved(old_room, new_room),
{
    if old_room.bet_outcome != RoomBetPossibleOutcomes::BetOngoing {
    } else {
        lemma_bets_sums_congruent(old_room.bets_made@, new_room.bets_made@);
    }
}

fn bet_entry_mut(bets: &mut Vec<(BetMaker, BetDetails)>, k: usize) -> (entry: &mut (
    BetMaker,
    BetDetails,
))
    requires
        k < old(bets)@.len(),
    ensures
        *entry == old(bets)@[k as int],
        final(bets)@ == old(bets)@.update(k as int, *final(entry)),
{
    &mut bets[k]
}

// ---------------------------------------------------------------------------
// The tabulation engine itself
// ---------------------------------------------------------------------------

impl Post {
    /// Settles the given slot: walks its rooms in ascending room id order,
    /// decides each still-undecided room by its tallies, hands one commission
    /// event per such room to the token balance, and writes every payout.
    /// A missing betting state or an unknown slot id changes nothing.
    #[verifier::loop_isolation(false)]
    pub fn tabulate_hot_or_not_outcome_for_slot(
        &mut self,
        post_canister_id: &PrincipalId,
        slot_id: &u8,
        token_balance: &mut TokenBalance,
        current_time: u64,
    )
        requires
            old(self).wf(),
            tabulation_fits(*old(self), *slot_id, old(token_balance).utility_token_balance),
        ensures
            final(self).wf(),
            final(self).id == old(self).id,
            final(self).created_at == old(self).created_at,
            final(self).aggregates() == old(self).aggregates(),
            !history_has_slot(old(self).history(), *slot_id) ==> *final(self) == *old(self)
                && *final(token_balance) == *old(token_balance),
            history_has_slot(old(self).history(), *slot_id) ==> ({
                let old_history = old(self).history();
                let new_history = final(self).history();
                let i = slot_index_in_history(old_history, *slot_id);
                let old_rooms = old_history[i].1.room_details@;
                let new_rooms = new_history[i].1.room_details@;
                let old_events = old(token_balance).utility_token_transaction_history@;
                let new_events = final(token_balance).utility_token_transaction_history@;
                &&& new_history.len() == old_history.len()
                &&& (forall|k: int|
                    0 <= k < old_history.len() && k != i ==> new_history[k] == old_history[k])
                &&& new_history[i].0 == *slot_id
                &&& new_rooms.len() == old_rooms.len()
                &&& (forall|j: int|
                    0 <= j < old_rooms.len() ==> room_tabulated(
                        old_rooms[j],
                        #[trigger] new_rooms[j],
                    ))
                &&& final(token_balance).utility_token_balance == old(
                    token_balance,
                ).utility_token_balance + total_commission(old_rooms)
                &&& new_events.len() == old_events.len() + ongoing_room_count(old_rooms)
                &&& new_events.take(old_events.len() as int) == old_events
                &&& slot_events_match(
                    new_events.skip(old_events.len() as int),
                    old_rooms,
                    post_canister_id@,
                    old(self).id,
                    *slot_id,
                    current_time,
                )
            }),
    {
        let post_id = self.id;
        let ghost h0 = self.history();
        let ghost balance0 = token_balance.utility_token_balance;
        let ghost events0 = token_balance.utility_token_transaction_history@;
        match &mut self.hot_or_not_details {
            None => {},
            Some(details) => {
                match find_slot_index(&details.slot_history, *slot_id) {
                    None => {},
                    Some(slot_index) => {
                        proof {
                            lemma_slot_index_unique(h0, *slot_id, slot_index as int);
                            assert(slot_wf(h0[slot_index as int].1));
                            assert(rooms_of_slot(h0, *slot_id) == h0[slot_index as int]
                                .1.room_details@);
                        }
                        let slot_entry = history_entry_mut(&mut details.slot_history, slot_index);
                        let ghost rooms0 = h0[slot_index as int].1.room_details@;
                        let rooms = &mut slot_entry.1.room_details;
                        let rooms_len = rooms.len();
                        let mut j: usize = 0;
                        while j < rooms_len
                            invariant
                                j <= rooms_len,
                                rooms@.len() == rooms_len == rooms0.len(),
                                forall|m: int| j <= m < rooms0.len() ==> rooms@[m] == rooms0[m],
                                forall|m: int|
                                    0 <= m < j ==> room_tabulated(
                                        rooms0[m],
                                        #[trigger] rooms@[m],
                                    ),
                                token_balance.utility_token_balance == balance0
                                    + total_commission(rooms0.take(j as int)),
                                token_balance.utility_token_transaction_history@.len()
                                    == events0.len() + ongoing_room_count(rooms0.take(j as int)),
                                events0.len()
                                    <= token_balance.utility_token_transaction_history@.len(),
                                token_balance.utility_token_transaction_history@.take(
                                    events0.len() as int,
                                ) == events0,
                                slot_events_match(
                                    token_balance.utility_token_transaction_history@.skip(
                                        events0.len() as int,
                                    ),
                                    rooms0.take(j as int),
                                    post_canister_id@,
                                    post_id,
                                    *slot_id,
                                    current_time,
                                ),
                            decreases rooms_len - j,
                        {
                            let ghost events_before = token_balance
                                .utility_token_transaction_history@;
                            if rooms[j].bet_outcome == RoomBetPossibleOutcomes::BetOngoing {
                                proof {
                                    assert(rooms@[j as int] == rooms0[j as int]);
                                    assert(room_payouts_fit(rooms0[j as int]));
                                    assert(room_wf(rooms0[j as int]));
                                    lemma_total_commission_take_le(rooms0, j as int + 1);
                                    lemma_total_commission_take_step(rooms0, j as int);
                                    lemma_ongoing_room_count_take_step(rooms0, j as int);
                                }
                                let ghost old_room = rooms0[j as int];
                                let room = room_mut(rooms, j);
                                let outcome = if room.total_hot_bets > room.total_not_bets {
                                    RoomBetPossibleOutcomes::HotWon
                                } else if room.total_hot_bets < room.total_not_bets {
                                    RoomBetPossibleOutcomes::NotWon
                                } else {
                                    RoomBetPossibleOutcomes::Draw
                                };
                                room.bet_outcome = outcome;
                                proof {
                                    assert(outcome == spec_room_outcome(old_room));
                                }
                                let commission = room.room_bets_total_pot
                                    * HOT_OR_NOT_BET_CREATOR_COMMISSION_PERCENTAGE / 100;
                                let commission_event = TokenEvent::HotOrNotOutcomePayout {
                                    amount: commission,
                                    details:
                                        HotOrNotOutcomePayoutEvent::CommissionFromHotOrNotBet {
                                        post_canister_id: post_canister_id.clone(),
                                        post_id,
                                        slot_id: *slot_id,
                                        room_id: j as u64 + 1,
                                        room_pot_total_amount: room.room_bets_total_pot,
                                    },
                                    timestamp: current_time,
                                };
                                let ghost commission_event_snapshot = commission_event;
                                proof {
                                    assert(commission_event_matches(
                                        commission_event_snapshot,
                                        post_canister_id@,
                                        post_id,
                                        *slot_id,
                                        j as int + 1,
                                        rooms0[j as int],
                                        current_time,
                                    ));
                                }
                                token_balance.handle_token_event(commission_event);
                                let bets_len = room.bets_made.len();
                                let mut k: usize = 0;
                                while k < bets_len
                                    invariant
                                        k <= bets_len,
                                        bets_len == old_room.bets_made@.len(),
                                        room.bets_made@.len() == bets_len,
                                        room.bet_outcome == outcome,
                                        room.room_bets_total_pot
                                            == old_room.room_bets_total_pot,
                                        room.total_hot_bets == old_room.total_hot_bets,
                                        room.total_not_bets == old_room.total_not_bets,
                                        forall|m: int|
                                            k <= m < bets_len ==> room.bets_made@[m]
                                                == old_room.bets_made@[m],
                                        forall|m: int|
                                            0 <= m < k ==> bet_settled(
                                                old_room.bets_made@[m],
                                                #[trigger] room.bets_made@[m],
                                                outcome,
                                            ),
                                    decreases bets_len - k,
                                {
                                    let bet_entry = bet_entry_mut(&mut room.bets_made, k);
                                    proof {
                                        assert(*bet_entry == old_room.bets_made@[k as int]);
                                        assert(bet_payout_fits(
                                            old_room.bets_made@[k as int].1,
                                            spec_room_outcome(old_room),
                                        ));
                                    }
                                    let amount_won: u64 = match outcome {
                                        RoomBetPossibleOutcomes::HotWon => {
                                            if bet_entry.1.bet_direction == BetDirection::Hot {
                                                bet_entry.1.amount
                                                    * HOT_OR_NOT_BET_WINNINGS_MULTIPLIER * (100
                                                    - HOT_OR_NOT_BET_CREATOR_COMMISSION_PERCENTAGE)
                                                    / 100
                                            } else {
                                                0
                                            }
                                        },
                                        RoomBetPossibleOutcomes::NotWon => {
                                            if bet_entry.1.bet_direction == BetDirection::Not {
                                                bet_entry.1.amount
                                                    * HOT_OR_NOT_BET_WINNINGS_MULTIPLIER * (100
                                                    - HOT_OR_NOT_BET_CREATOR_COMMISSION_PERCENTAGE)
                                                    / 100
                                            } else {
                                                0
                                            }
                                        },
                                        RoomBetPossibleOutcomes::Draw => {
                                            bet_entry.1.amount * (100
                                                - HOT_OR_NOT_BET_CREATOR_COMMISSION_PERCENTAGE)
                                                / 100
                                        },
                                        RoomBetPossibleOutcomes::BetOngoing => 0,
                                    };
                                    bet_entry.1.payout = BetPayout::Calculated(amount_won);
                                    k += 1;
                                }
                                proof {
                                    assert(room_tabulated(old_room, *room));
                                }
                                proof {
                                    let history_now = token_balance
                                        .utility_token_transaction_history@;
                                    assert(history_now == events_before.push(
                                        commission_event_snapshot,
                                    ));
                                    assert(history_now.take(events0.len() as int)
                                        =~= events_before.take(events0.len() as int));
                                    assert(history_now.skip(events0.len() as int)
                                        =~= events_before.skip(events0.len() as int).push(
                                        commission_event_snapshot,
                                    ));
                                    assert(rooms0.take(j as int + 1).drop_last() =~= rooms0.take(
                                        j as int,
                                    ));
                                    assert(rooms0.take(j as int + 1).last() == rooms0[j as int]);
                                    assert(history_now.skip(events0.len() as int).last()
                                        == commission_event_snapshot);
                                    assert(history_now.skip(events0.len() as int).drop_last()
                                        =~= events_before.skip(events0.len() as int));
                                    assert(slot_events_match(
                                        history_now.skip(events0.len() as int),
                                        rooms0.take(j as int + 1),
                                        post_canister_id@,
                                        post_id,
                                        *slot_id,
                                        current_time,
                                    ));
                                }
                            } else {
                                proof {
                                    assert(rooms@[j as int] == rooms0[j as int]);
                                    assert(room_tabulated(rooms0[j as int], rooms@[j as int]));
                                    lemma_total_commission_take_step(rooms0, j as int);
                                    lemma_ongoing_room_count_take_step(rooms0, j as int);
                                    assert(rooms0.take(j as int + 1).drop_last() =~= rooms0.take(
                                        j as int,
                                    ));
                                    assert(rooms0.take(j as int + 1).last() == rooms0[j as int]);
                                    assert(slot_events_match(
                                        token_balance.utility_token_transaction_history@.skip(
                                            events0.len() as int,
                                        ),
                                        rooms0.take(j as int + 1),
                                        post_canister_id@,
                                        post_id,
                                        *slot_id,
                                        current_time,
                                    ));
                                }
                            }
                            j += 1;
                        }
                        proof {
                            assert(rooms0.take(rooms_len as int) =~= rooms0);
                        }
                        let ghost h2 = details.slot_history@;
                        proof {
                            let i = slot_index as int;
                            let new_entry = h2[i];
                            let rooms2 = new_entry.1.room_details@;
                            assert forall|m: int|
                                0 <= m < rooms0.len() implies room_counts_preserved(
                                    rooms0[m],
                                    #[trigger] rooms2[m],
                                ) && room_wf(rooms2[m]) by {
                                assert(room_wf(rooms0[m]));
                                lemma_room_tabulated_wf(rooms0[m], rooms2[m]);
                            }
                            lemma_rooms_sums_congruent(rooms0, rooms2);
                            lemma_sum_of_history_pots_update(h0, i, new_entry);
                            lemma_sum_of_history_hot_tallies_update(h0, i, new_entry);
                            lemma_sum_of_history_not_tallies_update(h0, i, new_entry);
                            assert forall|p: Seq<u8>|
                                count_of_bettor_in_history(h2, p) == count_of_bettor_in_history(
                                    h0,
                                    p,
                                ) by {
                                lemma_count_of_bettor_in_history_update(h0, p, i, new_entry);
                            }
                            assert(history_wf(h2)) by {
                                assert forall|k: int|
                                    0 <= k < h2.len() implies 1 <= (#[trigger] h2[k]).0
                                        <= crate::MAXIMUM_NUMBER_OF_SLOTS && slot_wf(h2[k].1) by {
                                    if k != i {
                                        assert(h2[k] == h0[k]);
                                        assert(1 <= h0[k].0 <= crate::MAXIMUM_NUMBER_OF_SLOTS);
                                        assert(slot_wf(h0[k].1));
                                    } else {
                                        assert(1 <= h0[k].0 <= crate::MAXIMUM_NUMBER_OF_SLOTS);
                                    }
                                }
                                assert forall|a: int, b: int|
                                    0 <= a < b < h2.len() implies (#[trigger] h2[a]).0 < (
                                    #[trigger] h2[b]).0 by {
                                    assert(h2[a].0 == h0[a].0);
                                    assert(h2[b].0 == h0[b].0);
                                    assert(h0[a].0 < h0[b].0);
                                }
                            }
                            assert(one_bet_per_bettor(h2)) by {
                                assert forall|p: Seq<u8>|
                                    count_of_bettor_in_history(h2, p) <= 1 by {
                                    assert(count_of_bettor_in_history(h0, p) <= 1);
                                }
                            }
                            assert(details_wf(*details));
                        }
                    },
                }
            },
        }
    }
}

} // verus!
