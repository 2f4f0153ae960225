//! Listing a sale: a token contract notifies the market that its owner
//! approved the market to transfer a token, carrying the asked price.

use vstd::prelude::*;
use crate::{AccountId, TokenId};
use crate::errors::Error;
use crate::smap::{PairSet, StrSet};
use super::{Contract, STORAGE_PER_SALE, Sale, SalePrice};

verus! {

/// The price a listing asks, carried in the approval message.
#[derive(Debug)]
pub struct SaleArgs {
    pub sale_conditions: SalePrice,
}

pub trait NonFungibleTokenApprovalReceiver {
    /// The market this interface operates on.
    spec fn state(&self) -> Contract;

    /// List a sale for `token_id` of the calling token contract, sold by
    /// `owner_id` under the approval `approval_id` at the price `args`
    /// names. Admission control: the seller's storage reservation must
    /// cover one more sale. A sale already standing under the same key is
    /// replaced, its index entries first removed.
    fn nft_on_approve(
        &mut self,
        token_id: TokenId,
        owner_id: AccountId,
        approval_id: u64,
        args: SaleArgs,
        nft_contract_id: AccountId,
        signer_id: AccountId,
    ) -> (r: Result<(), Error>)
        requires
            old(self).state().inv(),
            nft_contract_id@ != signer_id@,
            signer_id@ == owner_id@,
            (old(self).state().seller_listing_count(signer_id@) + 1) * STORAGE_PER_SALE
                <= u128::MAX,
        ensures
            final(self).state().inv(),
            final(self).state().storage_deposit == old(self).state().storage_deposit,
            final(self).state().owner_id == old(self).state().owner_id,
            match r {
                Ok(()) => {
                    let key = (nft_contract_id@, token_id@);
                    let s = final(self).state().sales@[key];
                    &&& old(self).state().storage_credit(signer_id@) >= (old(self).state().seller_listing_count(signer_id@) + 1) * STORAGE_PER_SALE
                    &&& final(self).state().sales@ == old(self).state().sales@.insert(key, s)
                    &&& s.owner_id@ == owner_id@
                    &&& s.approval_id == approval_id
                    &&& s.nft_contract_id@ == nft_contract_id@
                    &&& s.token_id@ == token_id@
                    &&& s.sale_conditions == args.sale_conditions
                },
                Err(e) => {
                    &&& final(self).state() == old(self).state()
                    &&& e == Error::InsufficientStorageDeposit
                    &&& old(self).state().storage_credit(signer_id@) < (old(self).state().seller_listing_count(signer_id@) + 1) * STORAGE_PER_SALE
                },
            },
    ;
}

impl NonFungibleTokenApprovalReceiver for Contract {
    open spec fn state(&self) -> Contract {
        *self
    }

    fn nft_on_approve(
        &mut self,
        token_id: TokenId,
        owner_id: AccountId,
        approval_id: u64,
        args: SaleArgs,
        nft_contract_id: AccountId,
        signer_id: AccountId,
    ) -> (r: Result<(), Error>) {
        let ghost pre = *old(self);
        let ghost key = (nft_contract_id@, token_id@);

        let storage_balance: u128 = match self.storage_deposit.get(&signer_id) {
            Some(b) => *b,
            None => 0,
        };
        let owned_count: u128 = match self.by_owner_id.get(&signer_id) {
            Some(sales) => sales.len() as u128,
            None => 0,
        };
        let storage_required = (owned_count + 1) * STORAGE_PER_SALE;
        if storage_balance < storage_required {
            return Err(Error::InsufficientStorageDeposit);
        }

        if self.sales.contains_key(&nft_contract_id, &token_id) {
            match self.internal_remove_sale(nft_contract_id.clone(), token_id.clone()) {
                Ok(_replaced) => {},
                Err(_e) => {
                    proof {
                        assert(false);
                    }
                },
            }
        }
        let ghost m0 = *self;

        let sale = Sale {
            owner_id: owner_id.clone(),
            approval_id,
            nft_contract_id: nft_contract_id.clone(),
            token_id: token_id.clone(),
            sale_conditions: args.sale_conditions,
        };
        let ghost gsale = sale;
        self.sales.insert(nft_contract_id.clone(), token_id.clone(), sale);

        let mut owner_set: PairSet = match self.by_owner_id.remove(&owner_id) {
            Some(s) => s,
            None => PairSet::new(),
        };
        owner_set.insert(nft_contract_id.clone(), token_id.clone());
        let ghost new_owner_set = owner_set;
        self.by_owner_id.insert(owner_id.clone(), owner_set);
        let ghost m2 = *self;
        proof {
            assert(m2.by_owner_id@ =~= m0.by_owner_id@.insert(owner_id@, new_owner_set));
            assert forall|o: Seq<char>, k: (Seq<char>, Seq<char>)| #[trigger]
                m2.listed_by_owner(o, k) <==> (m0.listed_by_owner(o, k) || (o == owner_id@ && k
                    == key)) by {
                if o == owner_id@ {
                    assert(m2.by_owner_id@[o] == new_owner_set);
                } else {
                    assert(m2.by_owner_id@.contains_key(o) == m0.by_owner_id@.contains_key(o));
                }
            }
        }

        let mut contract_set: StrSet = match self.by_contract_id.remove(&nft_contract_id) {
            Some(s) => s,
            None => StrSet::new(),
        };
        contract_set.insert(token_id.clone());
        let ghost new_contract_set = contract_set;
        self.by_contract_id.insert(nft_contract_id, contract_set);

        proof {
            let post = *self;
            assert(post.by_contract_id@ =~= m0.by_contract_id@.insert(
                key.0,
                new_contract_set,
            ));
            assert forall|c: Seq<char>, t: Seq<char>| #[trigger]
                post.listed_by_contract(c, t) <==> (m0.listed_by_contract(c, t) || (c == key.0 && t
                    == key.1)) by {
                if c == key.0 {
                    assert(post.by_contract_id@[c] == new_contract_set);
                } else {
                    assert(post.by_contract_id@.contains_key(c) == m0.by_contract_id@.contains_key(
                        c,
                    ));
                }
            }
            assert forall|o: Seq<char>, k: (Seq<char>, Seq<char>)| #[trigger]
                post.listed_by_owner(o, k) == m2.listed_by_owner(o, k) by {}
            assert(post.sales@ =~= m0.sales@.insert(key, gsale));
            assert(post.sales@ =~= pre.sales@.insert(key, gsale));

            assert forall|k: (Seq<char>, Seq<char>)| #[trigger]
                post.sales@.contains_key(k) implies post.sales@[k].nft_contract_id@ == k.0
                && post.sales@[k].token_id@ == k.1 && post.listed_by_owner(
                post.sales@[k].owner_id@,
                k,
            ) && post.listed_by_contract(k.0, k.1) by {
                if k == key {
                    assert(post.sales@[k] == gsale);
                    assert(m2.listed_by_owner(owner_id@, key));
                    assert(post.listed_by_owner(owner_id@, key));
                } else {
                    assert(m0.sales@.contains_key(k));
                    assert(post.sales@[k] == m0.sales@[k]);
                    assert(m0.listed_by_owner(m0.sales@[k].owner_id@, k));
                    assert(m2.listed_by_owner(m0.sales@[k].owner_id@, k));
                    assert(m0.listed_by_contract(k.0, k.1));
                }
            }
            assert forall|o: Seq<char>, k: (Seq<char>, Seq<char>)| #[trigger]
                post.listed_by_owner(o, k) implies post.sales@.contains_key(k)
                && post.sales@[k].owner_id@ == o by {
                assert(m2.listed_by_owner(o, k));
                if o == owner_id@ && k == key {
                } else {
                    assert(m0.listed_by_owner(o, k));
                    assert(m0.sales@.contains_key(k));
                    assert(k != key);
                }
            }
            assert forall|c: Seq<char>, t: Seq<char>| #[trigger]
                post.listed_by_contract(c, t) implies post.sales@.contains_key((c, t)) by {
                if c == key.0 && t == key.1 {
                } else {
                    assert(m0.listed_by_contract(c, t));
                    assert(m0.sales@.contains_key((c, t)));
                    assert((c, t) != key);
                }
            }
        }
        Ok(())
    }
}

} // verus!
