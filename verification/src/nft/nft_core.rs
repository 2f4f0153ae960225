//! Transfer entry points and the notification/rollback continuation.

use vstd::prelude::*;
use crate::{AccountId, TokenId};
use crate::actions::{NotifyDispatch, NotifyOutcome, ResolveTransferContext, StorageRefund};
use crate::errors::Error;
use crate::events::{EventLog, EventLogVariant, NftTransferLog, is_transfer_event, opt_str_view};
use crate::smap::StrMap;
use super::Contract;
use super::internal::{transfer_error, transferred};
use super::metadata::Token;
use super::utils::{refund_approved_account_ids, spec_refund_bytes};

verus! {

/// The continuation treats this outcome as a request to roll the transfer
/// back: the remote call failed outright, or it returned a value that
/// decoded to `true`. A value that decoded to `false`, or one that did not
/// decode to a boolean at all, lets the transfer stand.
pub open spec fn rollback_requested(outcome: NotifyOutcome) -> bool {
    match outcome {
        NotifyOutcome::Failed => true,
        NotifyOutcome::Returned(b) => b == Some(true),
    }
}

pub trait NonFungibleTokenCore {
    /// The token ledger this interface operates on.
    spec fn state(&self) -> Contract;

    /// Transfer `token_id` to `receiver_id`, acting as `sender_id` under the
    /// approval `approval_id`, and refund the storage that the cleared
    /// approvals occupied to the sender.
    fn nft_transfer(
        &mut self,
        receiver_id: AccountId,
        token_id: TokenId,
        approval_id: u64,
        memo: Option<String>,
        sender_id: AccountId,
        attached_deposit: u128,
    ) -> (r: Result<StorageRefund, Error>)
        requires
            old(self).state().inv(),
            attached_deposit == 1,
            old(self).state().has_token(token_id@) ==> spec_refund_bytes(
                old(self).state().tokens_by_id@[token_id@].approved_account_ids.kv_seq(),
            ) <= usize::MAX,
        ensures
            final(self).state().inv(),
            match r {
                Ok(refund) => {
                    &&& transfer_error(
                        old(self).state(),
                        sender_id@,
                        receiver_id@,
                        token_id@,
                        Some(approval_id),
                    ) is None
                    &&& transferred(
                        old(self).state(),
                        final(self).state(),
                        receiver_id@,
                        token_id@,
                        Some(sender_id@),
                        opt_str_view(memo),
                    )
                    &&& refund.receiver_id@ == sender_id@
                    &&& refund.storage_bytes == spec_refund_bytes(
                        old(self).state().tokens_by_id@[token_id@].approved_account_ids.kv_seq(),
                    )
                },
                Err(e) => {
                    &&& final(self).state() == old(self).state()
                    &&& transfer_error(
                        old(self).state(),
                        sender_id@,
                        receiver_id@,
                        token_id@,
                        Some(approval_id),
                    ) == Some(e)
                },
            },
    ;

    /// Transfer `token_id` to `receiver_id` and ask the ledger to notify the
    /// receiving contract, scheduling a continuation that may roll the
    /// transfer back. The cleared approvals are not refunded here: the
    /// continuation may restore them.
    fn nft_transfer_call(
        &mut self,
        receiver_id: AccountId,
        token_id: TokenId,
        approval_id: u64,
        memo: Option<String>,
        msg: String,
        sender_id: AccountId,
        attached_deposit: u128,
    ) -> (r: Result<(NotifyDispatch, ResolveTransferContext), Error>)
        requires
            old(self).state().inv(),
            attached_deposit == 1,
        ensures
            final(self).state().inv(),
            match r {
                Ok(out) => {
                    let t0 = old(self).state().tokens_by_id@[token_id@];
                    &&& transfer_error(
                        old(self).state(),
                        sender_id@,
                        receiver_id@,
                        token_id@,
                        Some(approval_id),
                    ) is None
                    &&& transferred(
                        old(self).state(),
                        final(self).state(),
                        receiver_id@,
                        token_id@,
                        Some(sender_id@),
                        opt_str_view(memo),
                    )
                    &&& out.0.receiver_contract_id@ == receiver_id@
                    &&& out.0.sender_id@ == sender_id@
                    &&& out.0.previous_owner_id@ == t0.owner_id@
                    &&& out.0.token_id@ == token_id@
                    &&& out.0.msg@ == msg@
                    &&& out.1.owner_id@ == t0.owner_id@
                    &&& out.1.receiver_id@ == receiver_id@
                    &&& out.1.token_id@ == token_id@
                    &&& out.1.approved_account_ids@ == t0.approved_account_ids@
                    &&& out.1.approved_account_ids.kv_seq() == t0.approved_account_ids.kv_seq()
                    &&& out.1.approved_account_ids.wf()
                    &&& out.1.memo == memo
                    &&& (match out.1.authorized_id {
                        Some(a) => sender_id@ != t0.owner_id@ && a@ == sender_id@,
                        None => sender_id@ == t0.owner_id@,
                    })
                },
                Err(e) => {
                    &&& final(self).state() == old(self).state()
                    &&& transfer_error(
                        old(self).state(),
                        sender_id@,
                        receiver_id@,
                        token_id@,
                        Some(approval_id),
                    ) == Some(e)
                },
            },
    ;
}

impl NonFungibleTokenCore for Contract {
    open spec fn state(&self) -> Contract {
        *self
    }

    fn nft_transfer(
        &mut self,
        receiver_id: AccountId,
        token_id: TokenId,
        approval_id: u64,
        memo: Option<String>,
        sender_id: AccountId,
        attached_deposit: u128,
    ) -> (r: Result<StorageRefund, Error>) {
        let previous_token = match self.internal_transfer(
            &sender_id,
            &receiver_id,
            &token_id,
            Some(approval_id),
            memo,
        ) {
            Ok(t) => t,
            Err(e) => {
                return Err(e);
            },
        };
        Ok(refund_approved_account_ids(sender_id, &previous_token.approved_account_ids))
    }

    fn nft_transfer_call(
        &mut self,
        receiver_id: AccountId,
        token_id: TokenId,
        approval_id: u64,
        memo: Option<String>,
        msg: String,
        sender_id: AccountId,
        attached_deposit: u128,
    ) -> (r: Result<(NotifyDispatch, ResolveTransferContext), Error>) {
        let ghost gmemo = memo;
        let memo_for_event = memo.clone();
        proof {
            assert(opt_str_view(memo_for_event) == opt_str_view(gmemo)) by {
                if gmemo is Some {
                    assert(memo_for_event is Some);
                    assert(memo_for_event->0@ == gmemo->0@);
                }
            }
        }
        let previous_token = match self.internal_transfer(
            &sender_id,
            &receiver_id,
            &token_id,
            Some(approval_id),
            memo_for_event,
        ) {
            Ok(t) => t,
            Err(e) => {
                return Err(e);
            },
        };

        let mut authorized_id: Option<AccountId> = None;
        if !(sender_id == previous_token.owner_id) {
            authorized_id = Some(sender_id.clone());
        }

        let dispatch = NotifyDispatch {
            receiver_contract_id: receiver_id.clone(),
            sender_id,
            previous_owner_id: previous_token.owner_id.clone(),
            token_id: token_id.clone(),
            msg,
        };
        let context = ResolveTransferContext {
            authorized_id,
            owner_id: previous_token.owner_id,
            receiver_id,
            token_id,
            approved_account_ids: previous_token.approved_account_ids,
            memo,
        };
        Ok((dispatch, context))
    }
}

impl Contract {
    /// Continuation of a notified transfer: decide from the remote outcome
    /// whether the transfer stands, and roll ownership back when the
    /// receiver asked for it and still holds the token. Returns whether the
    /// transfer stands, and the storage refund owed for approvals that can
    /// no longer be restored or that the rollback displaced.
    pub fn nft_resolve_transfer(
        &mut self,
        authorized_id: Option<AccountId>,
        owner_id: AccountId,
        receiver_id: AccountId,
        token_id: TokenId,
        approved_account_ids: StrMap<u64>,
        memo: Option<String>,
        outcome: NotifyOutcome,
    ) -> (r: (bool, Option<StorageRefund>))
        requires
            old(self).inv(),
            approved_account_ids.wf(),
            spec_refund_bytes(approved_account_ids.kv_seq()) <= usize::MAX,
            old(self).has_token(token_id@) ==> spec_refund_bytes(
                old(self).tokens_by_id@[token_id@].approved_account_ids.kv_seq(),
            ) <= usize::MAX,
        ensures
            final(self).inv(),
            !rollback_requested(outcome) ==> {
                &&& *final(self) == *old(self)
                &&& r.0 == true
                &&& r.1 is None
            },
            rollback_requested(outcome) && !(old(self).has_token(token_id@) && old(
                self,
            ).owner_of(token_id@) == receiver_id@) ==> {
                &&& *final(self) == *old(self)
                &&& r.0 == true
                &&& (match r.1 {
                    Some(refund) => refund.receiver_id@ == owner_id@ && refund.storage_bytes
                        == spec_refund_bytes(approved_account_ids.kv_seq()),
                    None => false,
                })
            },
            rollback_requested(outcome) && old(self).has_token(token_id@) && old(self).owner_of(
                token_id@,
            ) == receiver_id@ ==> {
                let t0 = old(self).tokens_by_id@[token_id@];
                let t1 = final(self).tokens_by_id@[token_id@];
                &&& final(self).tokens_by_id@ == old(self).tokens_by_id@.insert(token_id@, t1)
                &&& t1.owner_id@ == owner_id@
                &&& t1.approved_account_ids@ == approved_account_ids@
                &&& t1.next_approval_id == t0.next_approval_id
                &&& t1.royalty@ == t0.royalty@
                &&& final(self).events@.len() == old(self).events@.len() + 1
                &&& final(self).events@.drop_last() == old(self).events@
                &&& is_transfer_event(
                    final(self).events@.last(),
                    receiver_id@,
                    owner_id@,
                    token_id@,
                    opt_str_view(authorized_id),
                    opt_str_view(memo),
                )
                &&& final(self).token_metadata_by_id == old(self).token_metadata_by_id
                &&& final(self).owner_id == old(self).owner_id
                &&& r.0 == false
                &&& (match r.1 {
                    Some(refund) => refund.receiver_id@ == receiver_id@ && refund.storage_bytes
                        == spec_refund_bytes(t0.approved_account_ids.kv_seq()),
                    None => false,
                })
            },
    {
        let ghost pre = *old(self);
        match &outcome {
            NotifyOutcome::Returned(decoded) => {
                if let Some(is_rollback) = decoded {
                    if !*is_rollback {
                        return (true, None);
                    }
                } else {
                    return (true, None);
                }
            },
            NotifyOutcome::Failed => {},
        }

        let rollback_possible = match self.tokens_by_id.get(&token_id) {
            Some(token_ref) => token_ref.owner_id == receiver_id,
            None => false,
        };
        if !rollback_possible {
            return (true, Some(refund_approved_account_ids(owner_id, &approved_account_ids)));
        }

        let token = self.tokens_by_id.remove(&token_id).unwrap();
        let ghost t0 = token;
        proof {
            assert(pre.owned(t0.owner_id@, token_id@));
        }
        self.internal_remove_token_from_owner(&token_id, &receiver_id);
        let ghost m1 = *self;
        self.internal_add_token_to_owner(&token_id, &owner_id);
        let ghost m2 = *self;

        let refund = refund_approved_account_ids(receiver_id.clone(), &token.approved_account_ids);

        let new_token = Token {
            owner_id: owner_id.clone(),
            approved_account_ids,
            next_approval_id: token.next_approval_id,
            royalty: token.royalty,
        };
        let ghost t1 = new_token;
        self.tokens_by_id.insert(token_id.clone(), new_token);

        let ghost gauth = authorized_id;
        let ghost gmemo = memo;
        let log = NftTransferLog {
            authorized_id,
            old_owner_id: receiver_id,
            new_owner_id: owner_id,
            token_ids: vec![token_id.clone()],
            memo,
        };
        let event = EventLog {
            standard: "nep171".to_owned(),
            version: "1.0.0".to_owned(),
            event: EventLogVariant::NftTransfer(vec![log]),
        };
        self.events.push(event);

        proof {
            assert(final(self).tokens_by_id@ =~= pre.tokens_by_id@.insert(token_id@, t1));
            assert(final(self).token_metadata_by_id@.dom() =~= final(self).tokens_by_id@.dom());
            assert(final(self).tokens_per_owner == m2.tokens_per_owner);
            assert forall|o: Seq<char>, t: Seq<char>| #[trigger]
                final(self).owned(o, t) == m2.owned(o, t) by {}
            assert forall|t: Seq<char>| #[trigger]
                final(self).tokens_by_id@.contains_key(t) implies final(self).tokens_by_id@[t].wf()
                && final(self).owned(final(self).tokens_by_id@[t].owner_id@, t) by {
                if t == token_id@ {
                    assert(final(self).tokens_by_id@[t] == t1);
                    assert(pre.tokens_by_id@.contains_key(token_id@));
                    assert(t0.wf());
                    assert(t1.wf());
                    assert(m2.owned(owner_id@, t));
                    assert(final(self).owned(owner_id@, t));
                } else {
                    assert(pre.tokens_by_id@.contains_key(t));
                    assert(final(self).tokens_by_id@[t] == pre.tokens_by_id@[t]);
                    let o = pre.tokens_by_id@[t].owner_id@;
                    assert(pre.owned(o, t));
                    assert(m1.owned(o, t));
                    assert(m2.owned(o, t));
                    assert(final(self).owned(o, t));
                }
            }
            assert forall|o: Seq<char>, t: Seq<char>| #[trigger]
                final(self).owned(o, t) implies final(self).tokens_by_id@.contains_key(t)
                && final(self).tokens_by_id@[t].owner_id@ == o by {
                assert(m2.owned(o, t));
                if o == owner_id@ && t == token_id@ {
                } else {
                    assert(m1.owned(o, t));
                    assert(pre.owned(o, t));
                    assert(!(o == t0.owner_id@ && t == token_id@));
                    assert(t != token_id@) by {
                        if t == token_id@ {
                            assert(pre.tokens_by_id@[t].owner_id@ == o);
                        }
                    }
                }
            }
            let post = *final(self);
            assert(post.events@.drop_last() =~= pre.events@);
        }
        (false, Some(refund))
    }
}

} // verus!
