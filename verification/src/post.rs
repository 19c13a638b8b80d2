//! The post record, as far as the betting engine observes it.
//!
//! The surrounding post carries much more (description, hashtags, feed
//! scores); the engine only reads the post's id and creation instant and owns
//! the optional betting state. Instants are whole seconds.

use vstd::prelude::*;

use crate::bets::{AggregateStats, HotOrNotDetails, SlotDetails, SlotId};
use crate::model::details_wf;

verus! {

/// What the frontend hands over when a post is created.
#[derive(Clone, Debug)]
pub struct PostDetailsFromFrontend {
    pub description: String,
    pub hashtags: Vec<String>,
    pub video_uid: String,
    pub creator_consent_for_inclusion_in_hot_or_not: bool,
}

/// A post, reduced to what the betting engine reads and writes.
#[derive(Clone, Debug)]
pub struct Post {
    pub id: u64,
    /// Creation instant, in whole seconds.
    pub created_at: u64,
    /// The betting state; absent until the creator consents or a bet arrives.
    pub hot_or_not_details: Option<HotOrNotDetails>,
}

impl Post {
    /// The betting state's invariant, trivially true while it is absent.
    pub open spec fn wf(&self) -> bool {
        match self.hot_or_not_details {
            Option::Some(details) => details_wf(details),
            Option::None => true,
        }
    }

    /// The slot history, reading an absent state as empty.
    pub open spec fn history(&self) -> Seq<(SlotId, SlotDetails)> {
        match self.hot_or_not_details {
            Option::Some(details) => details.slot_history@,
            Option::None => Seq::<(SlotId, SlotDetails)>::empty(),
        }
    }

    /// The post-wide aggregates, reading an absent state as all zero.
    pub open spec fn aggregates(&self) -> AggregateStats {
        match self.hot_or_not_details {
            Option::Some(details) => details.aggregate_stats,
            Option::None => AggregateStats {
                total_number_of_hot_bets: 0,
                total_number_of_not_bets: 0,
                total_amount_bet: 0,
            },
        }
    }

    /// A fresh post. The betting state is set up eagerly when the creator
    /// consents to the contest, and stays absent otherwise.
    pub fn new(
        id: u64,
        details_from_frontend: &PostDetailsFromFrontend,
        creation_time: u64,
    ) -> (post: Post)
        ensures
            post.id == id,
            post.created_at == creation_time,
            post.wf(),
            post.history().len() == 0,
            post.aggregates().total_number_of_hot_bets == 0,
            post.aggregates().total_number_of_not_bets == 0,
            post.aggregates().total_amount_bet == 0,
            post.hot_or_not_details is Some
                <==> details_from_frontend.creator_consent_for_inclusion_in_hot_or_not,
    {
        let hot_or_not_details = if details_from_frontend
            .creator_consent_for_inclusion_in_hot_or_not {
            Some(HotOrNotDetails::new())
        } else {
            None
        };
        Post { id, created_at: creation_time, hot_or_not_details }
    }
}

} // verus!
