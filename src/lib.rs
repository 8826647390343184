//! Grant requirements for delegated authorizations: their model, the engine
//! that merges overlapping requests, the store pattern for expiring grants,
//! and the exact coin arithmetic used when a reward-splitting grant runs.

pub mod coins;
pub mod contract_msgs;
pub mod dedupe;
pub mod deep_eq;
pub mod error;
pub mod grants;
pub mod msgs;
pub mod pending;
pub mod rewards;
pub mod send_grants;
pub mod store;
