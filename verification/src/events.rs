//! Events recorded by the token ledger.
//!
//! A deployed ledger emits these as log lines; here they accumulate in the
//! contract so that specifications can state exactly which events a call
//! records.

use vstd::prelude::*;

verus! {

#[derive(Debug)]
pub struct NftMintLog {
    pub owner_id: String,
    pub token_ids: Vec<String>,
    pub memo: Option<String>,
}

#[derive(Debug)]
pub struct NftTransferLog {
    pub authorized_id: Option<String>,
    pub old_owner_id: String,
    pub new_owner_id: String,
    pub token_ids: Vec<String>,
    pub memo: Option<String>,
}

#[derive(Debug)]
pub enum EventLogVariant {
    NftMint(Vec<NftMintLog>),
    NftTransfer(Vec<NftTransferLog>),
}

#[derive(Debug)]
pub struct EventLog {
    pub standard: String,
    pub version: String,
    pub event: EventLogVariant,
}

/// The view of an optional string, `None` kept as `None`.
pub open spec fn opt_str_view(a: Option<String>) -> Option<Seq<char>> {
    match a {
        Some(s) => Some(s@),
        None => None,
    }
}

/// The event records one mint of one token.
pub open spec fn is_mint_event(e: EventLog, owner: Seq<char>, token: Seq<char>) -> bool {
    &&& e.standard@ == "nep171"@
    &&& e.version@ == "1.0.0"@
    &&& match e.event {
        EventLogVariant::NftMint(logs) => {
            &&& logs@.len() == 1
            &&& logs@[0].owner_id@ == owner
            &&& logs@[0].token_ids@.len() == 1
            &&& logs@[0].token_ids@[0]@ == token
            &&& logs@[0].memo is None
        },
        _ => false,
    }
}

/// The event records one ownership change of one token, with the acting
/// approved account and the memo of the call that moved it.
pub open spec fn is_transfer_event(
    e: EventLog,
    old_owner: Seq<char>,
    new_owner: Seq<char>,
    token: Seq<char>,
    authorized: Option<Seq<char>>,
    memo: Option<Seq<char>>,
) -> bool {
    &&& e.standard@ == "nep171"@
    &&& e.version@ == "1.0.0"@
    &&& match e.event {
        EventLogVariant::NftTransfer(logs) => {
            &&& logs@.len() == 1
            &&& logs@[0].old_owner_id@ == old_owner
            &&& logs@[0].new_owner_id@ == new_owner
            &&& logs@[0].token_ids@.len() == 1
            &&& logs@[0].token_ids@[0]@ == token
            &&& opt_str_view(logs@[0].authorized_id) == authorized
            &&& opt_str_view(logs@[0].memo) == memo
        },
        _ => false,
    }
}

} // verus!
