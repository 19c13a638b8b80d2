//! The status query: what a viewer is told about a post's contest.
//!
//! Closed or open per the time grid; while open, the ongoing slot and room,
//! how many bets the active room holds, and whether the viewer has already
//! placed a bet anywhere on the post.

use vstd::prelude::*;

use crate::bets::{BettingStatus, SlotDetails, SlotId};
use crate::lemmas::{
    lemma_count_of_bettor_in_bets_found, lemma_count_of_bettor_in_bets_take_step,
    lemma_count_of_bettor_in_history_ge_slot, lemma_count_of_bettor_in_history_take_step,
    lemma_count_of_bettor_in_rooms_ge_room, lemma_count_of_bettor_in_rooms_take_step,
    lemma_slot_index_unique,
};
use crate::model::{
    active_room_bet_count, active_room_id, contest_closed, count_of_bettor_in_bets,
    count_of_bettor_in_history, count_of_bettor_in_rooms, history_has_bettor, history_has_slot,
    ongoing_slot_id, room_wf, slot_wf,
};
use crate::post::Post;
use crate::principal_id::{anonymous_bytes, PrincipalId};
use crate::{DURATION_OF_EACH_SLOT_IN_SECONDS, MAXIMUM_NUMBER_OF_SLOTS,
    TOTAL_DURATION_OF_ALL_SLOTS_IN_SECONDS};

verus! {

/// What the status query returns, stated over the model.
pub open spec fn spec_betting_status(post: Post, now: u64, viewer: Seq<u8>) -> BettingStatus {
    if contest_closed(post.created_at, now) {
        BettingStatus::BettingClosed
    } else {
        BettingStatus::BettingOpen {
            started_at: post.created_at,
            number_of_participants: active_room_bet_count(
                post.history(),
                ongoing_slot_id(post.created_at, now),
            ) as u8,
            ongoing_slot: ongoing_slot_id(post.created_at, now),
            ongoing_room: active_room_id(post.history(), ongoing_slot_id(post.created_at, now))
                as u64,
            has_this_user_participated_in_this_post: if viewer == anonymous_bytes() {
                None
            } else {
                Some(history_has_bettor(post.history(), viewer))
            },
        }
    }
}

/// Finds the index holding the given slot id, scanning the whole history.
pub(crate) fn find_slot_index(history: &Vec<(SlotId, SlotDetails)>, slot: SlotId) -> (r: Option<
    usize,
>)
    ensures
        match r {
            Some(i) => i < history@.len() && history@[i as int].0 == slot,
            None => !history_has_slot(history@, slot),
        },
{
    let n = history.len();
    let mut i: usize = 0;
    while i < n
        invariant
            n == history@.len(),
            i <= n,
            forall|k: int| 0 <= k < i ==> (#[trigger] history@[k]).0 != slot,
        decreases n - i,
    {
        if history[i].0 == slot {
            return Some(i);
        }
        i += 1;
    }
    None
}

impl Post {
    /// Whether the given principal already holds a bet anywhere on this post.
    #[verifier::loop_isolation(false)]
    pub fn has_this_principal_already_bet_on_this_post(
        &self,
        principal_making_bet: &PrincipalId,
    ) -> (r: bool)
        ensures
            r == history_has_bettor(self.history(), principal_making_bet@),
    {
        match &self.hot_or_not_details {
            None => false,
            Some(details) => {
                let history = &details.slot_history;
                let n = history.len();
                let mut i: usize = 0;
                while i < n
                    invariant
                        i <= n,
                        count_of_bettor_in_history(
                            history@.take(i as int),
                            principal_making_bet@,
                        ) == 0,
                    decreases n - i,
                {
                    let rooms = &history[i].1.room_details;
                    let m = rooms.len();
                    let mut j: usize = 0;
                    while j < m
                        invariant
                            j <= m,
                            count_of_bettor_in_rooms(rooms@.take(j as int), principal_making_bet@)
                                == 0,
                        decreases m - j,
                    {
                        let bets = &rooms[j].bets_made;
                        let bet_count = bets.len();
                        let mut k: usize = 0;
                        while k < bet_count
                            invariant
                                k <= bet_count,
                                count_of_bettor_in_bets(
                                    bets@.take(k as int),
                                    principal_making_bet@,
                                ) == 0,
                            decreases bet_count - k,
                        {
                            if bets[k].0.equals(principal_making_bet) {
                                proof {
                                    lemma_count_of_bettor_in_bets_found(
                                        bets@,
                                        principal_making_bet@,
                                        k as int,
                                    );
                                    lemma_count_of_bettor_in_rooms_ge_room(
                                        rooms@,
                                        principal_making_bet@,
                                        j as int,
                                    );
                                    lemma_count_of_bettor_in_history_ge_slot(
                                        history@,
                                        principal_making_bet@,
                                        i as int,
                                    );
                                }
                                return true;
                            }
                            proof {
                                lemma_count_of_bettor_in_bets_take_step(
                                    bets@,
                                    principal_making_bet@,
                                    k as int,
                                );
                            }
                            k += 1;
                        }
                        proof {
                            assert(bets@.take(bet_count as int) =~= bets@);
                            lemma_count_of_bettor_in_rooms_take_step(
                                rooms@,
                                principal_making_bet@,
                                j as int,
                            );
                        }
                        j += 1;
                    }
                    proof {
                        assert(rooms@.take(m as int) =~= rooms@);
                        lemma_count_of_bettor_in_history_take_step(
                            history@,
                            principal_making_bet@,
                            i as int,
                        );
                    }
                    i += 1;
                }
                proof {
                    assert(history@.take(n as int) =~= history@);
                }
                false
            },
        }
    }

    /// The status of this post's contest, as seen by the given viewer at the
    /// given instant.
    pub fn get_hot_or_not_betting_status_for_this_post(
        &self,
        current_time_when_request_being_made: u64,
        bet_maker_principal_id: &PrincipalId,
    ) -> (betting_status: BettingStatus)
        requires
            self.wf(),
            self.created_at <= current_time_when_request_being_made,
        ensures
            betting_status == spec_betting_status(
                *self,
                current_time_when_request_being_made,
                bet_maker_principal_id@,
            ),
            betting_status is BettingClosed <==> current_time_when_request_being_made
                - self.created_at > TOTAL_DURATION_OF_ALL_SLOTS_IN_SECONDS,
    {
        let elapsed = current_time_when_request_being_made - self.created_at;
        if elapsed > TOTAL_DURATION_OF_ALL_SLOTS_IN_SECONDS {
            return BettingStatus::BettingClosed;
        }
        let slot_number = elapsed / DURATION_OF_EACH_SLOT_IN_SECONDS + 1;
        let currently_ongoing_slot: u8 = if slot_number > MAXIMUM_NUMBER_OF_SLOTS as u64 {
            MAXIMUM_NUMBER_OF_SLOTS
        } else {
            slot_number as u8
        };
        let ghost slot_spec = ongoing_slot_id(self.created_at, current_time_when_request_being_made);
        proof {
            assert(currently_ongoing_slot == slot_spec);
        }
        let (number_of_participants, ongoing_room): (u8, u64) = match &self.hot_or_not_details {
            None => (0u8, 1u64),
            Some(details) => {
                match find_slot_index(&details.slot_history, currently_ongoing_slot) {
                    None => (0u8, 1u64),
                    Some(i) => {
                        proof {
                            lemma_slot_index_unique(
                                details.slot_history@,
                                currently_ongoing_slot,
                                i as int,
                            );
                            assert(slot_wf(details.slot_history@[i as int].1));
                        }
                        let rooms = &details.slot_history[i].1.room_details;
                        if rooms.len() == 0 {
                            (0u8, 1u64)
                        } else {
                            let last_room_index = rooms.len() - 1;
                            proof {
                                assert(room_wf(rooms@[last_room_index as int]));
                            }
                            let participants = rooms[last_room_index].bets_made.len() as u8;
                            (participants, rooms.len() as u64)
                        }
                    },
                }
            },
        };
        let has_this_user_participated_in_this_post = if bet_maker_principal_id.is_anonymous() {
            None
        } else {
            Some(self.has_this_principal_already_bet_on_this_post(bet_maker_principal_id))
        };
        BettingStatus::BettingOpen {
            started_at: self.created_at,
            number_of_participants,
            ongoing_slot: currently_ongoing_slot,
            ongoing_room,
            has_this_user_participated_in_this_post,
        }
    }
}

} // verus!
