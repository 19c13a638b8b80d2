//! A verified betting engine for "hot or not" contests on short-video posts.
//!
//! For each post, users place one directional bet (`Hot` or `Not`) during a
//! bounded 48-hour contest window. Bets are grouped into hourly slots, each
//! slot is partitioned into capacity-bounded rooms, and at tabulation time the
//! engine decides the winning direction per room, pays out participants by a
//! fixed integer formula, and credits the creator a commission through a typed
//! token event.

pub mod bets;
pub mod laws;
pub mod lemmas;
pub mod model;
pub mod persistence;
pub mod place;
pub mod post;
pub mod principal_id;
pub mod status;
pub mod tabulate;
pub mod token;

use vstd::prelude::*;

verus! {

/// Number of hourly betting slots in a contest window.
pub const MAXIMUM_NUMBER_OF_SLOTS: u8 = 48;

/// Length of one betting slot, in seconds.
pub const DURATION_OF_EACH_SLOT_IN_SECONDS: u64 = 60 * 60;

/// Length of the whole contest window, in seconds: 48 slots of one hour each.
pub const TOTAL_DURATION_OF_ALL_SLOTS_IN_SECONDS: u64 = 48 * 60 * 60;

} // verus!
