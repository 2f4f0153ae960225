//! The token ledger: authoritative ownership of unique tokens, with
//! approvals, royalties, transfer, and the notification/rollback saga.

pub mod approval;
pub mod enumeration;
pub mod internal;
pub mod metadata;
pub mod mint;
pub mod nft_core;
pub mod royalty;
pub mod utils;

use vstd::prelude::*;
use crate::AccountId;
use crate::events::EventLog;
use crate::smap::{StrMap, StrSet};
use self::metadata::{NFTContractMetadata, Token, TokenMetadata};

verus! {

pub struct Contract {
    pub owner_id: AccountId,
    /// Reverse index: the tokens each account owns.
    pub tokens_per_owner: StrMap<StrSet>,
    /// The authoritative token table.
    pub tokens_by_id: StrMap<Token>,
    pub token_metadata_by_id: StrMap<TokenMetadata>,
    pub metadata: NFTContractMetadata,
    /// Events recorded so far, oldest first.
    pub events: Vec<EventLog>,
}

impl Contract {
    /// The reverse index lists token `t` under account `o`.
    pub open spec fn owned(&self, o: Seq<char>, t: Seq<char>) -> bool {
        self.tokens_per_owner@.contains_key(o) && self.tokens_per_owner@[o]@.contains(t)
    }

    /// A token with id `t` exists.
    pub open spec fn has_token(&self, t: Seq<char>) -> bool {
        self.tokens_by_id@.contains_key(t)
    }

    /// The owner of token `t`.
    pub open spec fn owner_of(&self, t: Seq<char>) -> Seq<char> {
        self.tokens_by_id@[t].owner_id@
    }

    /// Well-formedness: all stores are well formed, every token is well
    /// formed, the reverse index agrees exactly with the token table, its
    /// sets are never left empty, and every token has metadata.
    pub open spec fn inv(&self) -> bool {
        &&& self.tokens_by_id.wf()
        &&& self.tokens_per_owner.wf()
        &&& self.token_metadata_by_id.wf()
        &&& forall|t: Seq<char>|
            #[trigger] self.tokens_by_id@.contains_key(t) ==> self.tokens_by_id@[t].wf()
        &&& forall|t: Seq<char>|
            #[trigger] self.tokens_by_id@.contains_key(t)
                ==> self.owned(self.tokens_by_id@[t].owner_id@, t)
        &&& forall|o: Seq<char>, t: Seq<char>|
            #[trigger] self.owned(o, t)
                ==> self.tokens_by_id@.contains_key(t) && self.tokens_by_id@[t].owner_id@ == o
        &&& forall|o: Seq<char>|
            #[trigger] self.tokens_per_owner@.contains_key(o)
                ==> self.tokens_per_owner@[o].wf() && self.tokens_per_owner@[o].size() > 0
        &&& self.token_metadata_by_id@.dom() == self.tokens_by_id@.dom()
    }

    pub fn new(owner_id: AccountId, token_metadata: NFTContractMetadata) -> (c: Self)
        ensures
            c.inv(),
            c.owner_id@ == owner_id@,
            c.tokens_by_id@ == Map::<Seq<char>, Token>::empty(),
            c.tokens_per_owner@ == Map::<Seq<char>, StrSet>::empty(),
            c.token_metadata_by_id@ == Map::<Seq<char>, TokenMetadata>::empty(),
            c.events@ == Seq::<EventLog>::empty(),
    {
        let c = Contract {
            owner_id,
            metadata: token_metadata,
            tokens_per_owner: StrMap::new(),
            tokens_by_id: StrMap::new(),
            token_metadata_by_id: StrMap::new(),
            events: Vec::new(),
        };
        proof {
            assert(c.token_metadata_by_id@.dom() =~= c.tokens_by_id@.dom());
        }
        c
    }

    pub fn new_default_metadata(owner_id: AccountId) -> (c: Self)
        ensures
            c.inv(),
            c.owner_id@ == owner_id@,
            c.tokens_by_id@ == Map::<Seq<char>, Token>::empty(),
            c.tokens_per_owner@ == Map::<Seq<char>, StrSet>::empty(),
            c.token_metadata_by_id@ == Map::<Seq<char>, TokenMetadata>::empty(),
            c.events@ == Seq::<EventLog>::empty(),
    {
        Self::new(
            owner_id,
            NFTContractMetadata {
                spec: "nft-tutorial-1.0.0".to_owned(),
                name: "VBI NFT Tutorial".to_owned(),
                symbol: "VNFT".to_owned(),
                icon: None,
                base_uri: None,
                reference: None,
                reference_hash: None,
            },
        )
    }
}

} // verus!
