//! The token collaborator's interface.
//!
//! Tabulation credits a post's creator a commission per settled room. The
//! commission reaches the creator as a typed event handed to a token balance,
//! which records the event and adds its amount to the balance.

use vstd::prelude::*;

use crate::bets::{PostId, RoomId, SlotId};
use crate::principal_id::PrincipalId;

verus! {

/// Creator's commission at tabulation, as a percentage of a room's pot.
pub const HOT_OR_NOT_BET_CREATOR_COMMISSION_PERCENTAGE: u64 = 10;

/// Gross factor applied to a winning bettor's stake before commission.
pub const HOT_OR_NOT_BET_WINNINGS_MULTIPLIER: u64 = 2;

/// Identifies the room whose settlement pays the commission.
#[derive(Clone, Debug, PartialEq, Eq)]
pub enum HotOrNotOutcomePayoutEvent {
    CommissionFromHotOrNotBet {
        post_canister_id: PrincipalId,
        post_id: PostId,
        slot_id: SlotId,
        room_id: RoomId,
        room_pot_total_amount: u64,
    },
}

/// An event the token collaborator accepts.
#[derive(Clone, Debug, PartialEq, Eq)]
pub enum TokenEvent {
    HotOrNotOutcomePayout {
        amount: u64,
        details: HotOrNotOutcomePayoutEvent,
        timestamp: u64,
    },
}

/// The amount an event credits.
pub open spec fn token_event_amount(event: TokenEvent) -> u64 {
    match event {
        TokenEvent::HotOrNotOutcomePayout { amount, .. } => amount,
    }
}

/// The creator-side token balance, with its transaction history.
#[derive(Clone, Debug)]
pub struct TokenBalance {
    pub utility_token_balance: u64,
    pub utility_token_transaction_history: Vec<TokenEvent>,
}

impl TokenBalance {
    /// Credits the event's amount and records the event.
    pub fn handle_token_event(&mut self, event: TokenEvent)
        requires
            old(self).utility_token_balance + token_event_amount(event) <= u64::MAX,
        ensures
            final(self).utility_token_balance == old(self).utility_token_balance
                + token_event_amount(event),
            final(self).utility_token_transaction_history@
                == old(self).utility_token_transaction_history@.push(event),
    {
        match &event {
            TokenEvent::HotOrNotOutcomePayout { amount, .. } => {
                self.utility_token_balance = self.utility_token_balance + *amount;
            },
        }
        self.utility_token_transaction_history.push(event);
    }
}

impl Default for TokenBalance {
    /// An empty balance with no history.
    fn default() -> (r: TokenBalance)
        ensures
            r.utility_token_balance == 0,
            r.utility_token_transaction_history@.len() == 0,
    {
        TokenBalance {
            utility_token_balance: 0,
            utility_token_transaction_history: Vec::new(),
        }
    }
}

} // verus!
