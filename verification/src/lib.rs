//! A creature marketplace for an account-based ledger, with its rules
//! verified: minting (create and breed), ownership transfer, listing for
//! sale, and purchase with collateral, over three consistent maps and a
//! currency ledger. Beside it sit a first-claimer registry of byte-string
//! proofs and the pure parsing of an off-chain price feed.
//!
//! Every operation either commits all its effects or returns an error and
//! leaves the state untouched; each contract says which, for every input.
//! The host supplies what is outside the rules: the randomness beacon value
//! and the transaction ordinal come in as arguments, events go out as a
//! log, and the HTTP transport of the off-chain feeds stays with the host.

use vstd::prelude::*;

pub mod collateral;
pub mod genome;
pub mod github;
pub mod ledger;
pub mod market;
pub mod poe;
pub mod price;
pub mod store;

verus! {

/// Account identifier inside the host ledger.
pub type AccountId = u64;

/// Index of a creature; ids are handed out from 1 upward.
pub type KittyIndex = u32;

/// Currency amount.
pub type Balance = u64;

} // verus!
