//! Minting new tokens and reading them back.

use vstd::prelude::*;
use crate::{AccountId, TokenId};
use crate::errors::Error;
use crate::events::{EventLog, EventLogVariant, NftMintLog, is_mint_event};
use crate::smap::StrMap;
use super::Contract;
use super::metadata::{JsonToken, Token, TokenMetadata, bps_sum, metadata_eqv};

verus! {

impl Contract {
    /// Create token `token_id` owned by `receiver_id`, with its metadata and
    /// an optional royalty table, and record a mint event. The deposit that
    /// covers the consumed storage is settled by the caller through
    /// `refund_deposit`, since only the runtime meters storage.
    pub fn nft_mint(
        &mut self,
        token_id: TokenId,
        metadata: TokenMetadata,
        receiver_id: AccountId,
        perpetual_royalties: Option<StrMap<u32>>,
    ) -> (r: Result<(), Error>)
        requires
            old(self).inv(),
            match perpetual_royalties {
                Some(ref royalties) => royalties.wf() && bps_sum(royalties.kv_seq()) < 10000,
                None => true,
            },
        ensures
            final(self).inv(),
            match r {
                Ok(()) => {
                    let t = final(self).tokens_by_id@[token_id@];
                    &&& (match perpetual_royalties {
                        Some(ref royalties) => royalties.kv_seq().len() < 7 && t.royalty@
                            == royalties@,
                        None => t.royalty@ == Map::<Seq<char>, u32>::empty(),
                    })
                    &&& !old(self).has_token(token_id@)
                    &&& final(self).tokens_by_id@ == old(self).tokens_by_id@.insert(token_id@, t)
                    &&& t.owner_id@ == receiver_id@
                    &&& t.approved_account_ids@ == Map::<Seq<char>, u64>::empty()
                    &&& t.next_approval_id == 0
                    &&& final(self).token_metadata_by_id@ == old(self).token_metadata_by_id@.insert(token_id@, metadata)
                    &&& final(self).events@.len() == old(self).events@.len() + 1
                    &&& final(self).events@.drop_last() == old(self).events@
                    &&& is_mint_event(final(self).events@.last(), receiver_id@, token_id@)
                    &&& final(self).owner_id == old(self).owner_id
                    &&& final(self).metadata == old(self).metadata
                },
                Err(e) => {
                    &&& *final(self) == *old(self)
                    &&& (if perpetual_royalties matches Some(ref royalties) && royalties.kv_seq().len()
                        >= 7 {
                        e == Error::TooManyRoyalties
                    } else {
                        e == Error::TokenAlreadyExists && old(self).has_token(token_id@)
                    })
                },
            },
    {
        let ghost pre = *old(self);
        let royalty: StrMap<u32> = match perpetual_royalties {
            Some(royalties) => {
                if royalties.len() >= 7 {
                    return Err(Error::TooManyRoyalties);
                }
                royalties
            },
            None => StrMap::new(),
        };

        if self.tokens_by_id.contains_key(&token_id) {
            return Err(Error::TokenAlreadyExists);
        }

        let token = Token {
            owner_id: receiver_id.clone(),
            approved_account_ids: StrMap::new(),
            next_approval_id: 0,
            royalty,
        };
        let ghost t = token;
        let owner = token.owner_id.clone();
        self.tokens_by_id.insert(token_id.clone(), token);
        self.token_metadata_by_id.insert(token_id.clone(), metadata);
        self.internal_add_token_to_owner(&token_id, &owner);
        let ghost m1 = *self;

        let log = NftMintLog {
            owner_id: receiver_id,
            token_ids: vec![token_id.clone()],
            memo: None,
        };
        let event = EventLog {
            standard: "nep171".to_owned(),
            version: "1.0.0".to_owned(),
            event: EventLogVariant::NftMint(vec![log]),
        };
        self.events.push(event);

        proof {
            assert(final(self).token_metadata_by_id@.dom() =~= final(self).tokens_by_id@.dom());
            assert(final(self).tokens_per_owner == m1.tokens_per_owner);
            assert forall|o: Seq<char>, t2: Seq<char>| #[trigger]
                final(self).owned(o, t2) == m1.owned(o, t2) by {}
            assert forall|t2: Seq<char>| #[trigger]
                final(self).tokens_by_id@.contains_key(t2) implies final(self).tokens_by_id@[t2].wf() && final(self).owned(final(self).tokens_by_id@[t2].owner_id@, t2) by {
                if t2 == token_id@ {
                    assert(final(self).tokens_by_id@[t2] == t);
                    assert(m1.owned(receiver_id@, t2));
                } else {
                    assert(pre.tokens_by_id@.contains_key(t2));
                    assert(final(self).tokens_by_id@[t2] == pre.tokens_by_id@[t2]);
                    let o = pre.tokens_by_id@[t2].owner_id@;
                    assert(pre.owned(o, t2));
                    assert(m1.owned(o, t2));
                }
            }
            assert forall|o: Seq<char>, t2: Seq<char>| #[trigger]
                final(self).owned(o, t2) implies final(self).tokens_by_id@.contains_key(t2)
                && final(self).tokens_by_id@[t2].owner_id@ == o by {
                assert(m1.owned(o, t2));
                if o == receiver_id@ && t2 == token_id@ {
                } else {
                    assert(pre.owned(o, t2));
                    assert(t2 != token_id@);
                }
            }
            let post = *final(self);
            assert(post.events@.drop_last() =~= pre.events@);
        }
        Ok(())
    }

    /// The token with id `token_id`, joined with its metadata, or `None`
    /// when it does not exist.
    pub fn nft_token(&self, token_id: TokenId) -> (r: Option<JsonToken>)
        requires
            self.inv(),
        ensures
            match r {
                Some(jt) => {
                    let t = self.tokens_by_id@[token_id@];
                    &&& self.has_token(token_id@)
                    &&& jt.token_id@ == token_id@
                    &&& jt.owner_id@ == t.owner_id@
                    &&& metadata_eqv(jt.metadata, self.token_metadata_by_id@[token_id@])
                    &&& jt.approved_account_ids@ == t.approved_account_ids@
                    &&& jt.royalty@ == t.royalty@
                },
                None => !self.has_token(token_id@),
            },
    {
        match self.tokens_by_id.get(&token_id) {
            Some(token) => {
                proof {
                    assert(self.token_metadata_by_id@.dom().contains(token_id@));
                }
                let metadata = self.token_metadata_by_id.get(&token_id).unwrap();
                Some(
                    JsonToken {
                        owner_id: token.owner_id.clone(),
                        token_id,
                        metadata: metadata.duplicate(),
                        approved_account_ids: token.approved_account_ids.duplicate(),
                        royalty: token.royalty.duplicate(),
                    },
                )
            },
            None => None,
        }
    }
}

} // verus!
