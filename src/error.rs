//! The failures the library reports.

use vstd::prelude::*;

verus! {

/// Why an operation failed.
#[derive(Debug, Clone)]
pub enum ContractError {
    /// An amount in a reward report is not a decimal integer that fits.
    InvalidAmount(String),
    /// There is nothing to distribute for this granter.
    NoPendingRewards(String),
    /// The requester is neither the granter nor the grantee.
    Unauthorized {},
    /// No active grant exists for this granter.
    NoActiveGrant(String),
    /// No active grant exists from this granter to this grantee.
    NoActiveSendGrant { granter: String, grantee: String },
    /// A coin to be sent is not of an allowed denomination.
    UnauthorizedDenom { allowed_denoms: Vec<String>, to_send: Vec<String> },
}

} // verus!
