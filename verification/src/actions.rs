//! Ledger actions and remote outcomes.
//!
//! The contracts never talk to the hosting ledger directly. A function that
//! owes the ledger a value transfer or a remote call returns one of these
//! descriptors, and the runtime shell performs it. A continuation receives
//! the outcome of its remote call as a [`NotifyOutcome`] or as an
//! already-decoded payload.

use vstd::prelude::*;
use crate::smap::StrMap;

verus! {

/// Instruction to move native value to an account, fire-and-forget.
#[derive(Debug)]
pub struct TransferAction {
    pub receiver_id: String,
    pub amount: u128,
}

/// Instruction to a token contract to move token-denominated value,
/// fire-and-forget.
#[derive(Debug)]
pub struct FtTransferAction {
    pub ft_contract_id: String,
    pub receiver_id: String,
    pub amount: u128,
}

/// Instruction to refund the native cost of released storage bytes.
/// The runtime multiplies the byte count by its current storage byte price.
#[derive(Debug)]
pub struct StorageRefund {
    pub receiver_id: String,
    pub storage_bytes: u64,
}

/// Remote call asking a token contract to transfer a token to a buyer and to
/// compute the payout for the sale price.
#[derive(Debug)]
pub struct PurchaseDispatch {
    pub nft_contract_id: String,
    pub receiver_id: String,
    pub token_id: String,
    pub approval_id: u64,
    pub memo: String,
    pub balance: u128,
    pub max_len_payout: u32,
}

/// Remote call informing a receiving contract that a token was transferred
/// to it.
#[derive(Debug)]
pub struct NotifyDispatch {
    pub receiver_contract_id: String,
    pub sender_id: String,
    pub previous_owner_id: String,
    pub token_id: String,
    pub msg: String,
}

/// Parameters bound into the continuation that resolves a notified transfer.
#[derive(Debug)]
pub struct ResolveTransferContext {
    pub authorized_id: Option<String>,
    pub owner_id: String,
    pub receiver_id: String,
    pub token_id: String,
    pub approved_account_ids: StrMap<u64>,
    pub memo: Option<String>,
}

/// Remote call informing a market that an account approved it to transfer a
/// token.
#[derive(Debug)]
pub struct ApprovalNotifyDispatch {
    pub approved_account_id: String,
    pub token_id: String,
    pub owner_id: String,
    pub approval_id: u64,
    pub msg: String,
}

/// What a continuation learns about the one remote call it resolves:
/// the call failed outright, or it returned a value which either decoded to a
/// boolean or did not.
#[derive(Debug)]
pub enum NotifyOutcome {
    Failed,
    Returned(Option<bool>),
}

} // verus!
