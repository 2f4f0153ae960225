//! Approval grants: allowing other accounts to transfer a token.

use vstd::prelude::*;
use crate::{AccountId, TokenId};
use crate::actions::{ApprovalNotifyDispatch, StorageRefund, TransferAction};
use crate::errors::Error;
use super::Contract;
use super::metadata::Token;
use super::utils::{
    bytes_for_approved_account_id, refund_approved_account_ids, refund_deposit,
    spec_account_bytes, spec_refund_bytes,
};

verus! {

pub trait NonFungibleTokenApproval {
    /// The token ledger this interface operates on.
    spec fn state(&self) -> Contract;

    /// Grant `account_id` an approval on `token_id`, carrying the next
    /// sequence number, and bump the counter. The caller must own the token
    /// and attach a deposit covering the storage the new entry occupies; the
    /// excess is refunded. With a message, the approved account's contract
    /// is notified.
    fn nft_approve(
        &mut self,
        token_id: TokenId,
        account_id: AccountId,
        msg: Option<String>,
        predecessor_id: AccountId,
        attached_deposit: u128,
        storage_byte_cost: u128,
    ) -> (r: Result<(Option<TransferAction>, Option<ApprovalNotifyDispatch>), Error>)
        requires
            old(self).state().inv(),
            attached_deposit >= 1,
            spec_account_bytes(account_id@) <= usize::MAX,
            spec_account_bytes(account_id@) * storage_byte_cost <= u128::MAX,
            old(self).state().has_token(token_id@) ==> old(self).state().tokens_by_id@[token_id@].next_approval_id < u64::MAX,
        ensures
            final(self).state().inv(),
            match r {
                Ok(out) => {
                    let t0 = old(self).state().tokens_by_id@[token_id@];
                    let t1 = final(self).state().tokens_by_id@[token_id@];
                    let used = if t0.approved_account_ids@.contains_key(account_id@) {
                        0int
                    } else {
                        spec_account_bytes(account_id@)
                    };
                    &&& old(self).state().has_token(token_id@)
                    &&& predecessor_id@ == t0.owner_id@
                    &&& used * storage_byte_cost <= attached_deposit
                    &&& final(self).state().tokens_by_id@ == old(self).state().tokens_by_id@.insert(token_id@, t1)
                    &&& t1.owner_id@ == t0.owner_id@
                    &&& t1.approved_account_ids@ == t0.approved_account_ids@.insert(
                        account_id@,
                        t0.next_approval_id,
                    )
                    &&& t1.next_approval_id == t0.next_approval_id + 1
                    &&& t1.royalty@ == t0.royalty@
                    &&& final(self).state().tokens_per_owner == old(self).state().tokens_per_owner
                    &&& final(self).state().token_metadata_by_id == old(self).state().token_metadata_by_id
                    &&& final(self).state().events == old(self).state().events
                    &&& (match out.0 {
                        Some(a) => attached_deposit - used * storage_byte_cost > 1 && a.amount
                            == attached_deposit - used * storage_byte_cost && a.receiver_id@
                            == predecessor_id@,
                        None => attached_deposit - used * storage_byte_cost <= 1,
                    })
                    &&& (match msg {
                        Some(m) => (match out.1 {
                            Some(d) => d.approved_account_id@ == account_id@ && d.token_id@
                                == token_id@ && d.owner_id@ == t0.owner_id@ && d.approval_id
                                == t0.next_approval_id && d.msg@ == m@,
                            None => false,
                        }),
                        None => out.1 is None,
                    })
                },
                Err(e) => {
                    &&& final(self).state() == old(self).state()
                    &&& (if !old(self).state().has_token(token_id@) {
                        e == Error::TokenNotFound
                    } else if predecessor_id@ != old(self).state().tokens_by_id@[token_id@].owner_id@ {
                        e == Error::NotOwner
                    } else {
                        e == Error::InsufficientDeposit && (if old(self).state().tokens_by_id@[token_id@].approved_account_ids@.contains_key(
                            account_id@,
                        ) {
                            0int
                        } else {
                            spec_account_bytes(account_id@)
                        }) * storage_byte_cost > attached_deposit
                    })
                },
            },
    ;

    /// Whether `approved_account_id` holds an approval on `token_id` with
    /// exactly the presented sequence number.
    fn nft_is_approved(
        &self,
        token_id: TokenId,
        approved_account_id: AccountId,
        approval_id: Option<u64>,
    ) -> (r: bool)
        requires
            self.state().inv(),
            self.state().has_token(token_id@),
            self.state().tokens_by_id@[token_id@].approved_account_ids@.contains_key(
                approved_account_id@,
            ) ==> approval_id is Some,
        ensures
            r == {
                let approvals = self.state().tokens_by_id@[token_id@].approved_account_ids@;
                approvals.contains_key(approved_account_id@) && approval_id is Some
                    && approvals[approved_account_id@] == approval_id->0
            },
    ;

    /// Withdraw the approval `account_id` holds on `token_id`, refunding the
    /// storage its entry occupied to the owner.
    fn nft_revoke(
        &mut self,
        token_id: TokenId,
        account_id: AccountId,
        predecessor_id: AccountId,
        attached_deposit: u128,
    ) -> (r: Result<Option<StorageRefund>, Error>)
        requires
            old(self).state().inv(),
            attached_deposit == 1,
            spec_account_bytes(account_id@) <= usize::MAX,
        ensures
            final(self).state().inv(),
            match r {
                Ok(out) => {
                    let t0 = old(self).state().tokens_by_id@[token_id@];
                    let t1 = final(self).state().tokens_by_id@[token_id@];
                    &&& old(self).state().has_token(token_id@)
                    &&& predecessor_id@ == t0.owner_id@
                    &&& (match out {
                        Some(refund) => {
                            &&& t0.approved_account_ids@.contains_key(account_id@)
                            &&& final(self).state().tokens_by_id@ == old(self).state().tokens_by_id@.insert(token_id@, t1)
                            &&& t1.owner_id@ == t0.owner_id@
                            &&& t1.approved_account_ids@ == t0.approved_account_ids@.remove(
                                account_id@,
                            )
                            &&& t1.next_approval_id == t0.next_approval_id
                            &&& t1.royalty@ == t0.royalty@
                            &&& final(self).state().tokens_per_owner == old(self).state().tokens_per_owner
                            &&& final(self).state().events == old(self).state().events
                            &&& final(self).state().token_metadata_by_id == old(self).state().token_metadata_by_id
                            &&& refund.receiver_id@ == predecessor_id@
                            &&& refund.storage_bytes == spec_account_bytes(account_id@)
                        },
                        None => !t0.approved_account_ids@.contains_key(account_id@) && final(self).state() == old(self).state(),
                    })
                },
                Err(e) => {
                    &&& final(self).state() == old(self).state()
                    &&& (if !old(self).state().has_token(token_id@) {
                        e == Error::TokenNotFound
                    } else {
                        e == Error::NotOwner && predecessor_id@ != old(self).state().tokens_by_id@[token_id@].owner_id@
                    })
                },
            },
    ;

    /// Withdraw every approval on `token_id`, refunding the storage the
    /// whole table occupied to the owner.
    fn nft_revoke_all(
        &mut self,
        token_id: TokenId,
        predecessor_id: AccountId,
        attached_deposit: u128,
    ) -> (r: Result<Option<StorageRefund>, Error>)
        requires
            old(self).state().inv(),
            attached_deposit == 1,
            old(self).state().has_token(token_id@) ==> spec_refund_bytes(
                old(self).state().tokens_by_id@[token_id@].approved_account_ids.kv_seq(),
            ) <= usize::MAX,
        ensures
            final(self).state().inv(),
            match r {
                Ok(out) => {
                    let t0 = old(self).state().tokens_by_id@[token_id@];
                    let t1 = final(self).state().tokens_by_id@[token_id@];
                    &&& old(self).state().has_token(token_id@)
                    &&& predecessor_id@ == t0.owner_id@
                    &&& (match out {
                        Some(refund) => {
                            &&& t0.approved_account_ids.kv_seq().len() > 0
                            &&& final(self).state().tokens_by_id@ == old(self).state().tokens_by_id@.insert(token_id@, t1)
                            &&& t1.owner_id@ == t0.owner_id@
                            &&& t1.approved_account_ids@ == Map::<Seq<char>, u64>::empty()
                            &&& t1.approved_account_ids.kv_seq().len() == 0
                            &&& t1.next_approval_id == t0.next_approval_id
                            &&& t1.royalty@ == t0.royalty@
                            &&& final(self).state().tokens_per_owner == old(self).state().tokens_per_owner
                            &&& final(self).state().events == old(self).state().events
                            &&& final(self).state().token_metadata_by_id == old(self).state().token_metadata_by_id
                            &&& refund.receiver_id@ == predecessor_id@
                            &&& refund.storage_bytes == spec_refund_bytes(
                                t0.approved_account_ids.kv_seq(),
                            )
                        },
                        None => t0.approved_account_ids.kv_seq().len() == 0 && final(self).state()
                            == old(self).state(),
                    })
                },
                Err(e) => {
                    &&& final(self).state() == old(self).state()
                    &&& (if !old(self).state().has_token(token_id@) {
                        e == Error::TokenNotFound
                    } else {
                        e == Error::NotOwner && predecessor_id@ != old(self).state().tokens_by_id@[token_id@].owner_id@
                    })
                },
            },
    ;
}

/// Interface a market implements to learn of an approval granted to it.
pub trait NonFungibleTokenApprovalReceiver {
    fn nft_on_approve(
        &mut self,
        token_id: TokenId,
        owner_id: AccountId,
        approval_id: u64,
        msg: String,
    );
}

impl NonFungibleTokenApproval for Contract {
    open spec fn state(&self) -> Contract {
        *self
    }

    fn nft_approve(
        &mut self,
        token_id: TokenId,
        account_id: AccountId,
        msg: Option<String>,
        predecessor_id: AccountId,
        attached_deposit: u128,
        storage_byte_cost: u128,
    ) -> (r: Result<(Option<TransferAction>, Option<ApprovalNotifyDispatch>), Error>) {
        let ghost pre = *old(self);
        let is_new_approval: bool;
        match self.tokens_by_id.get(&token_id) {
            None => {
                return Err(Error::TokenNotFound);
            },
            Some(token_ref) => {
                if !(predecessor_id == token_ref.owner_id) {
                    return Err(Error::NotOwner);
                }
                is_new_approval = !token_ref.approved_account_ids.contains_key(&account_id);
            },
        }
        let storage_used: u64 = if is_new_approval {
            bytes_for_approved_account_id(&account_id)
        } else {
            0
        };
        let refund_opt = match refund_deposit(
            storage_used,
            attached_deposit,
            storage_byte_cost,
            predecessor_id.clone(),
        ) {
            Ok(o) => o,
            Err(e) => {
                return Err(e);
            },
        };

        let mut token = self.tokens_by_id.remove(&token_id).unwrap();
        let approval_id = token.next_approval_id;
        token.approved_account_ids.insert(account_id.clone(), approval_id);
        token.next_approval_id = token.next_approval_id + 1;
        let owner = token.owner_id.clone();
        let ghost t1 = token;
        self.tokens_by_id.insert(token_id.clone(), token);

        proof {
            assert(final(self).tokens_by_id@ =~= pre.tokens_by_id@.insert(token_id@, t1));
            lemma_tokens_update_preserves_inv(pre, *final(self), token_id@, t1);
        }

        let dispatch = match msg {
            Some(m) => Some(
                ApprovalNotifyDispatch {
                    approved_account_id: account_id,
                    token_id,
                    owner_id: owner,
                    approval_id,
                    msg: m,
                },
            ),
            None => None,
        };
        Ok((refund_opt, dispatch))
    }

    fn nft_is_approved(
        &self,
        token_id: TokenId,
        approved_account_id: AccountId,
        approval_id: Option<u64>,
    ) -> (r: bool) {
        let token = self.tokens_by_id.get(&token_id).unwrap();
        let approval = token.approved_account_ids.get(&approved_account_id);
        if let Some(actual) = approval {
            *actual == approval_id.unwrap()
        } else {
            false
        }
    }

    fn nft_revoke(
        &mut self,
        token_id: TokenId,
        account_id: AccountId,
        predecessor_id: AccountId,
        attached_deposit: u128,
    ) -> (r: Result<Option<StorageRefund>, Error>) {
        let ghost pre = *old(self);
        match self.tokens_by_id.get(&token_id) {
            None => {
                return Err(Error::TokenNotFound);
            },
            Some(token_ref) => {
                if !(predecessor_id == token_ref.owner_id) {
                    return Err(Error::NotOwner);
                }
                if !token_ref.approved_account_ids.contains_key(&account_id) {
                    return Ok(None);
                }
            },
        }
        let mut token = self.tokens_by_id.remove(&token_id).unwrap();
        token.approved_account_ids.remove(&account_id);
        let ghost t1 = token;
        self.tokens_by_id.insert(token_id.clone(), token);
        proof {
            assert(final(self).tokens_by_id@ =~= pre.tokens_by_id@.insert(token_id@, t1));
            lemma_tokens_update_preserves_inv(pre, *final(self), token_id@, t1);
        }
        let refund_bytes = bytes_for_approved_account_id(&account_id);
        Ok(Some(StorageRefund { receiver_id: predecessor_id, storage_bytes: refund_bytes }))
    }

    fn nft_revoke_all(
        &mut self,
        token_id: TokenId,
        predecessor_id: AccountId,
        attached_deposit: u128,
    ) -> (r: Result<Option<StorageRefund>, Error>) {
        let ghost pre = *old(self);
        match self.tokens_by_id.get(&token_id) {
            None => {
                return Err(Error::TokenNotFound);
            },
            Some(token_ref) => {
                if !(predecessor_id == token_ref.owner_id) {
                    return Err(Error::NotOwner);
                }
                if token_ref.approved_account_ids.is_empty() {
                    return Ok(None);
                }
            },
        }
        let mut token = self.tokens_by_id.remove(&token_id).unwrap();
        let refund = refund_approved_account_ids(
            predecessor_id,
            &token.approved_account_ids,
        );
        token.approved_account_ids.clear();
        let ghost t1 = token;
        self.tokens_by_id.insert(token_id.clone(), token);
        proof {
            assert(final(self).tokens_by_id@ =~= pre.tokens_by_id@.insert(token_id@, t1));
            lemma_tokens_update_preserves_inv(pre, *final(self), token_id@, t1);
        }
        Ok(Some(refund))
    }
}

/// Replacing one token with a well-formed one that keeps its owner leaves
/// the contract invariant intact.
proof fn lemma_tokens_update_preserves_inv(pre: Contract, post: Contract, token_id: Seq<char>, t1: Token)
    requires
        pre.inv(),
        pre.tokens_by_id@.contains_key(token_id),
        t1.wf(),
        t1.owner_id@ == pre.tokens_by_id@[token_id].owner_id@,
        post.tokens_by_id.wf(),
        post.tokens_by_id@ == pre.tokens_by_id@.insert(token_id, t1),
        post.tokens_per_owner == pre.tokens_per_owner,
        post.token_metadata_by_id == pre.token_metadata_by_id,
    ensures
        post.inv(),
{
    assert(post.token_metadata_by_id@.dom() =~= post.tokens_by_id@.dom());
    assert forall|o: Seq<char>, t: Seq<char>| #[trigger]
        post.owned(o, t) == pre.owned(o, t) by {}
    assert forall|t: Seq<char>| #[trigger]
        post.tokens_by_id@.contains_key(t) implies post.tokens_by_id@[t].wf() && post.owned(
        post.tokens_by_id@[t].owner_id@,
        t,
    ) by {
        assert(pre.tokens_by_id@.contains_key(t));
        if t == token_id {
            assert(post.tokens_by_id@[t] == t1);
            assert(pre.owned(pre.tokens_by_id@[t].owner_id@, t));
        } else {
            assert(post.tokens_by_id@[t] == pre.tokens_by_id@[t]);
            assert(pre.owned(pre.tokens_by_id@[t].owner_id@, t));
        }
    }
    assert forall|o: Seq<char>, t: Seq<char>| #[trigger]
        post.owned(o, t) implies post.tokens_by_id@.contains_key(t)
        && post.tokens_by_id@[t].owner_id@ == o by {
        assert(pre.owned(o, t));
        if t == token_id {
            assert(pre.tokens_by_id@[t].owner_id@ == o);
        }
    }
}

} // verus!
