//! Removing a sale from the table and both secondary indices at once.

use vstd::prelude::*;
use crate::{AccountId, TokenId};
use crate::errors::Error;
use crate::smap::{PairSet, StrSet};
use super::{Contract, Sale};

verus! {

impl Contract {
    /// Remove the sale under `(nft_contract_id, token_id)` from the sale
    /// table and from both secondary indices, dropping an index entry
    /// entirely when it empties, and return the removed sale. Fails, with
    /// nothing changed, when no sale stands under the key.
    pub fn internal_remove_sale(
        &mut self,
        nft_contract_id: AccountId,
        token_id: TokenId,
    ) -> (r: Result<Sale, Error>)
        requires
            old(self).inv(),
        ensures
            final(self).inv(),
            final(self).storage_deposit == old(self).storage_deposit,
            final(self).owner_id == old(self).owner_id,
            match r {
                Ok(sale) => {
                    &&& old(self).has_sale((nft_contract_id@, token_id@))
                    &&& sale == old(self).sales@[(nft_contract_id@, token_id@)]
                    &&& final(self).sales@ == old(self).sales@.remove(
                        (nft_contract_id@, token_id@),
                    )
                },
                Err(e) => {
                    &&& e == Error::SaleNotFound
                    &&& !old(self).has_sale((nft_contract_id@, token_id@))
                    &&& *final(self) == *old(self)
                },
            },
    {
        let ghost pre = *old(self);
        let ghost key = (nft_contract_id@, token_id@);
        let sale = match self.sales.remove(&nft_contract_id, &token_id) {
            Some(s) => s,
            None => {
                return Err(Error::SaleNotFound);
            },
        };
        proof {
            assert(pre.listed_by_owner(sale.owner_id@, key));
            assert(pre.listed_by_contract(nft_contract_id@, token_id@));
        }

        let mut by_owner: PairSet = self.by_owner_id.remove(&sale.owner_id).unwrap();
        by_owner.remove(&nft_contract_id, &token_id);
        if !by_owner.is_empty() {
            let ghost shrunk = by_owner;
            self.by_owner_id.insert(sale.owner_id.clone(), by_owner);
            proof {
                assert(self.by_owner_id@ =~= pre.by_owner_id@.insert(sale.owner_id@, shrunk));
            }
        } else {
            proof {
                assert(by_owner.m.kv_seq().len() == 0);
                assert(by_owner@ =~= Set::<(Seq<char>, Seq<char>)>::empty());
                assert(self.by_owner_id@ =~= pre.by_owner_id@.remove(sale.owner_id@));
            }
        }
        let ghost m1 = *self;
        proof {
            assert forall|o: Seq<char>, k: (Seq<char>, Seq<char>)| #[trigger]
                m1.listed_by_owner(o, k) <==> (pre.listed_by_owner(o, k) && !(o == sale.owner_id@
                    && k == key)) by {
                if o == sale.owner_id@ {
                    if m1.by_owner_id@.contains_key(o) {
                        assert(m1.by_owner_id@[o]@ == pre.by_owner_id@[o]@.remove(key));
                    } else {
                        if pre.listed_by_owner(o, k) && k != key {
                            assert(pre.by_owner_id@[o]@.remove(key).contains(k));
                        }
                    }
                } else {
                    assert(m1.by_owner_id@.contains_key(o) == pre.by_owner_id@.contains_key(o));
                }
            }
        }

        let mut by_contract: StrSet = self.by_contract_id.remove(&nft_contract_id).unwrap();
        by_contract.remove(&token_id);
        if !by_contract.is_empty() {
            let ghost shrunk2 = by_contract;
            self.by_contract_id.insert(nft_contract_id.clone(), by_contract);
            proof {
                assert(self.by_contract_id@ =~= m1.by_contract_id@.insert(
                    nft_contract_id@,
                    shrunk2,
                ));
            }
        } else {
            proof {
                assert(by_contract.m.kv_seq().len() == 0);
                assert(by_contract@ =~= Set::<Seq<char>>::empty());
                assert(self.by_contract_id@ =~= m1.by_contract_id@.remove(nft_contract_id@));
            }
        }
        proof {
            let post = *self;
            assert forall|c: Seq<char>, t: Seq<char>| #[trigger]
                post.listed_by_contract(c, t) <==> (pre.listed_by_contract(c, t) && !(c
                    == nft_contract_id@ && t == token_id@)) by {
                if c == nft_contract_id@ {
                    if post.by_contract_id@.contains_key(c) {
                        assert(post.by_contract_id@[c]@ == pre.by_contract_id@[c]@.remove(
                            token_id@,
                        ));
                    } else {
                        if pre.listed_by_contract(c, t) && t != token_id@ {
                            assert(pre.by_contract_id@[c]@.remove(token_id@).contains(t));
                        }
                    }
                } else {
                    assert(post.by_contract_id@.contains_key(c) == pre.by_contract_id@.contains_key(
                        c,
                    ));
                }
            }
            assert forall|o: Seq<char>, k: (Seq<char>, Seq<char>)| #[trigger]
                post.listed_by_owner(o, k) == m1.listed_by_owner(o, k) by {}

            assert forall|k: (Seq<char>, Seq<char>)| #[trigger]
                post.sales@.contains_key(k) implies post.sales@[k].nft_contract_id@ == k.0
                && post.sales@[k].token_id@ == k.1 && post.listed_by_owner(
                post.sales@[k].owner_id@,
                k,
            ) && post.listed_by_contract(k.0, k.1) by {
                assert(pre.sales@.contains_key(k) && k != key);
                assert(post.sales@[k] == pre.sales@[k]);
                assert(pre.listed_by_owner(pre.sales@[k].owner_id@, k));
                assert(m1.listed_by_owner(pre.sales@[k].owner_id@, k));
                assert(pre.listed_by_contract(k.0, k.1));
                assert(!(k.0 == nft_contract_id@ && k.1 == token_id@));
            }
            assert forall|o: Seq<char>, k: (Seq<char>, Seq<char>)| #[trigger]
                post.listed_by_owner(o, k) implies post.sales@.contains_key(k)
                && post.sales@[k].owner_id@ == o by {
                assert(m1.listed_by_owner(o, k));
                assert(pre.listed_by_owner(o, k));
                assert(pre.sales@.contains_key(k));
                assert(k != key);
            }
            assert forall|c: Seq<char>, t: Seq<char>| #[trigger]
                post.listed_by_contract(c, t) implies post.sales@.contains_key((c, t)) by {
                assert(pre.listed_by_contract(c, t));
                assert(pre.sales@.contains_key((c, t)));
                assert(!(c == nft_contract_id@ && t == token_id@));
            }
        }
        Ok(sale)
    }
}

} // verus!
