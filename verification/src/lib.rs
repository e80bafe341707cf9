use vstd::prelude::*;

pub mod bid_registry;
pub mod bid_service;
pub mod bus;
pub mod cors;
pub mod domain;
pub mod errors;
pub mod hashing;
pub mod helpers;
pub mod manager;
pub mod registry;
pub mod text;
pub mod worker;

verus! {

/// Milliseconds that an auction must at least last: `end_time` has to be at
/// least this far past `start_time` for an offer to be accepted.
pub const MIN_AUCTION_DURATION_MS: u64 = 500;

} // verus!
