//! The bet ledger's data types.
//!
//! A post's betting state is a history of hourly slots; each slot holds its
//! rooms in ascending room id order, and rooms are densely numbered from 1, so
//! the room with id `n` sits at index `n - 1`. A room holds the bets made in
//! it, in the order they were placed, keyed by the bettor's principal.

use vstd::prelude::*;

use crate::lemmas::{lemma_count_of_bettor_in_bets_take_step, lemma_slot_index_unique};
use crate::model::{
    count_of_bettor_in_bets, history_has_slot, history_ordered, slot_index_in_history,
};
use crate::principal_id::PrincipalId;

verus! {

/// Identifies one of the 48 hourly slots of a contest, counted from 1.
pub type SlotId = u8;

/// Identifies a room within a slot, counted from 1.
pub type RoomId = u64;

/// The bettor's identity, under which a bet is recorded.
pub type BetMaker = PrincipalId;

/// Identifies a post, unique within the canister that owns it.
pub type PostId = u64;

/// Most bets a room accepts before the next bet spills into a new room.
pub const ROOM_CAPACITY: usize = 100;

/// The direction a bet votes for.
#[derive(Clone, Copy, Debug, PartialEq, Eq, Structural)]
pub enum BetDirection {
    Hot,
    Not,
}

/// A bet's payout: unknown until the room is tabulated.
#[derive(Clone, Copy, Debug, PartialEq, Eq, Structural)]
pub enum BetPayout {
    NotCalculatedYet,
    Calculated(u64),
}

/// A room's outcome: undecided until tabulated, then fixed.
#[derive(Clone, Copy, Debug, PartialEq, Eq, Structural)]
pub enum RoomBetPossibleOutcomes {
    BetOngoing,
    HotWon,
    NotWon,
    Draw,
}

/// One recorded bet.
#[derive(Clone, Debug)]
pub struct BetDetails {
    pub amount: u64,
    pub bet_direction: BetDirection,
    pub payout: BetPayout,
    pub bet_maker_canister_id: PrincipalId,
}

/// A capacity-bounded bucket of bets within a slot.
#[derive(Clone, Debug)]
pub struct RoomDetails {
    /// The bets of this room in placement order; no principal appears twice.
    pub bets_made: Vec<(BetMaker, BetDetails)>,
    pub bet_outcome: RoomBetPossibleOutcomes,
    pub room_bets_total_pot: u64,
    pub total_hot_bets: u64,
    pub total_not_bets: u64,
}

/// One hourly slot: its rooms in ascending room id order.
#[derive(Clone, Debug)]
pub struct SlotDetails {
    pub room_details: Vec<RoomDetails>,
}

/// Totals over the whole post.
#[derive(Clone, Debug)]
pub struct AggregateStats {
    pub total_number_of_hot_bets: u64,
    pub total_number_of_not_bets: u64,
    pub total_amount_bet: u64,
}

/// A post's whole betting state.
#[derive(Clone, Debug)]
pub struct HotOrNotDetails {
    pub aggregate_stats: AggregateStats,
    /// Slots that have seen bets, keyed by slot id in strictly ascending order.
    pub slot_history: Vec<(SlotId, SlotDetails)>,
}

/// What a caller asking to bet is told about a post.
#[derive(Debug, PartialEq, Eq, Structural)]
pub enum BettingStatus {
    BettingOpen {
        started_at: u64,
        number_of_participants: u8,
        ongoing_slot: SlotId,
        ongoing_room: RoomId,
        has_this_user_participated_in_this_post: Option<bool>,
    },
    BettingClosed,
}

/// Why a bet was refused.
#[derive(Clone, Copy, Debug, PartialEq, Eq, Structural)]
pub enum BetOnCurrentlyViewingPostError {
    BettingClosed,
    UserAlreadyParticipatedInThisPost,
    UserNotLoggedIn,
}

/// A viewer's standing on a post, at the interface boundary.
#[derive(Debug)]
pub enum UserStatusForSpecificHotOrNotPost {
    NotParticipatedYet,
    AwaitingResult(BetDetail),
    ResultAnnounced(BetResult),
}

/// A settled bet's result, at the interface boundary.
#[derive(Debug, PartialEq, Eq, Structural)]
pub enum BetResult {
    Won(u64),
    Lost,
    Draw,
}

/// A pending bet, at the interface boundary.
#[derive(Clone, Debug)]
pub struct BetDetail {
    pub amount: u64,
    pub bet_direction: BetDirection,
    pub bet_made_at: u64,
}

/// Identifies a bet by the post it was placed on.
#[derive(Debug, PartialEq, Eq, Hash)]
pub struct HotOrNotBetId {
    pub canister_id: PrincipalId,
    pub post_id: u64,
}

/// The bettor-side record of a placed bet.
#[derive(Clone, Debug)]
pub struct PlacedBetDetail {
    pub canister_id: PrincipalId,
    pub post_id: PostId,
    pub slot_id: SlotId,
    pub room_id: RoomId,
    pub amount_bet: u64,
    pub bet_direction: BetDirection,
    pub bet_placed_at: u64,
    pub outcome_received: BetOutcomeForBetMaker,
}

/// What the bettor side is told once a room settles.
#[derive(Clone, Debug, PartialEq, Eq, Structural)]
pub enum BetOutcomeForBetMaker {
    AwaitingResult,
    Won(u64),
    Lost,
    Draw(u64),
}

impl RoomDetails {
    /// A fresh room with no bets and everything at zero.
    pub fn new() -> (r: RoomDetails)
        ensures
            r.bets_made@.len() == 0,
            r.bet_outcome == RoomBetPossibleOutcomes::BetOngoing,
            r.room_bets_total_pot == 0,
            r.total_hot_bets == 0,
            r.total_not_bets == 0,
    {
        RoomDetails {
            bets_made: Vec::new(),
            bet_outcome: RoomBetPossibleOutcomes::BetOngoing,
            room_bets_total_pot: 0,
            total_hot_bets: 0,
            total_not_bets: 0,
        }
    }

    /// The bet the given principal made in this room, if any.
    pub fn get_bet(&self, bet_maker: &PrincipalId) -> (r: Option<&BetDetails>)
        ensures
            match r {
                Some(bet) => count_of_bettor_in_bets(self.bets_made@, bet_maker@) > 0 && exists|
                    k: int,
                |
                    0 <= k < self.bets_made@.len() && (#[trigger] self.bets_made@[k]).0@
                        == bet_maker@ && *bet == self.bets_made@[k].1,
                None => count_of_bettor_in_bets(self.bets_made@, bet_maker@) == 0,
            },
    {
        let n = self.bets_made.len();
        let mut k: usize = 0;
        while k < n
            invariant
                k <= n,
                n == self.bets_made@.len(),
                count_of_bettor_in_bets(self.bets_made@.take(k as int), bet_maker@) == 0,
            decreases n - k,
        {
            if self.bets_made[k].0.equals(bet_maker) {
                proof {
                    crate::lemmas::lemma_count_of_bettor_in_bets_found(
                        self.bets_made@,
                        bet_maker@,
                        k as int,
                    );
                }
                return Some(&self.bets_made[k].1);
            }
            proof {
                lemma_count_of_bettor_in_bets_take_step(self.bets_made@, bet_maker@, k as int);
            }
            k += 1;
        }
        proof {
            assert(self.bets_made@.take(n as int) =~= self.bets_made@);
        }
        None
    }
}

impl SlotDetails {
    /// The room with the given id; rooms are numbered densely from 1.
    pub fn get_room(&self, room_id: RoomId) -> (r: Option<&RoomDetails>)
        ensures
            match r {
                Some(room) => 1 <= room_id <= self.room_details@.len() && *room
                    == self.room_details@[room_id - 1],
                None => room_id == 0 || room_id > self.room_details@.len(),
            },
    {
        if room_id == 0 || room_id > self.room_details.len() as u64 {
            None
        } else {
            Some(&self.room_details[(room_id - 1) as usize])
        }
    }
}

impl HotOrNotDetails {
    /// The slot with the given id, if any bets were recorded in it.
    pub fn get_slot(&self, slot_id: SlotId) -> (r: Option<&SlotDetails>)
        requires
            history_ordered(self.slot_history@),
        ensures
            match r {
                Some(slot) => history_has_slot(self.slot_history@, slot_id) && *slot
                    == self.slot_history@[slot_index_in_history(self.slot_history@, slot_id)].1,
                None => !history_has_slot(self.slot_history@, slot_id),
            },
    {
        match crate::status::find_slot_index(&self.slot_history, slot_id) {
            None => None,
            Some(i) => {
                proof {
                    lemma_slot_index_unique(self.slot_history@, slot_id, i as int);
                }
                Some(&self.slot_history[i].1)
            },
        }
    }

    /// A fresh state with no slots and all aggregates at zero.
    pub fn new() -> (r: HotOrNotDetails)
        ensures
            r.slot_history@.len() == 0,
            r.aggregate_stats.total_number_of_hot_bets == 0,
            r.aggregate_stats.total_number_of_not_bets == 0,
            r.aggregate_stats.total_amount_bet == 0,
    {
        HotOrNotDetails {
            aggregate_stats: AggregateStats {
                total_number_of_hot_bets: 0,
                total_number_of_not_bets: 0,
                total_amount_bet: 0,
            },
            slot_history: Vec::new(),
        }
    }
}

} // verus!
