//! A minimal value-custody and minting ledger.
//!
//! The library tracks per-account token balances and posted collateral,
//! keeps per-token share accounting, and drives the two-step workflow in
//! which collateral is locked locally and an external token-issuing
//! service is asked, asynchronously, to mint supply on the caller's
//! behalf.  All state transitions are verified; the host environment
//! (storage, cross-contract calls, caller identity) stays outside and
//! hands the library plain values.
pub mod account;
pub mod fibre;
pub mod fungible_token;
pub mod ids;
pub mod mint;
pub mod store;
pub mod token;

use vstd::prelude::*;

verus! {

/// Why a request was rejected.  Every failing operation reports exactly
/// one of these and leaves the ledger untouched.
#[derive(Clone, Copy, Debug, PartialEq, Eq, Structural)]
pub enum FibreError {
    /// A balance addition would leave the unsigned range.
    Overflow,
    /// A balance subtraction would go below zero.
    Underflow,
    /// A withdrawal asked for more than the current balance.
    InsufficientBalance,
    /// A collateral addition would leave the unsigned range.
    CollateralOverflow,
    /// A collateral removal asked for more than is posted.
    InsufficientCollateral,
    /// A share addition would leave the unsigned range.
    ShareOverflow,
    /// A strict token lookup found no record under the identifier.
    TokenNotFound,
    /// The external mint call reported failure.
    ExternalCallRejected,
    /// A malformed account identifier.
    InvalidIdentity,
    /// A mint confirmation arrived with no awaiting request to match it.
    RequestNotFound,
}

} // verus!
