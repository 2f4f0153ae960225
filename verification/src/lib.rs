//! A verified model of an asset marketplace: a non-fungible-token ledger and a
//! market that sells listed tokens, settling purchases through a
//! dispatch/continuation protocol with rollback.
//!
//! All persistent state lives in verified in-memory stores; every interaction
//! with the hosting ledger (value transfers, remote calls, scheduled
//! continuations) is returned to the caller as a plain action value, and every
//! continuation takes the remote outcome as an argument.

pub mod actions;
pub mod errors;
pub mod events;
pub mod nft;
pub mod market;
pub mod smap;

use vstd::prelude::*;

verus! {

/// Identifier of a token within one token contract.
pub type TokenId = String;

/// Identifier of an account on the ledger.
pub type AccountId = String;

} // verus!
