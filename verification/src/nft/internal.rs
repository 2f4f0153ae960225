//! Reverse-index maintenance and the ownership transfer itself.

use vstd::prelude::*;
use crate::{AccountId, TokenId};
use crate::errors::Error;
use crate::events::{EventLog, EventLogVariant, NftTransferLog, is_transfer_event, opt_str_view};
use crate::smap::{StrMap, StrSet};
use super::Contract;
use super::metadata::Token;

verus! {

/// The error `internal_transfer` reports on this input, `None` when the
/// transfer is allowed.
pub open spec fn transfer_error(c: Contract, sender: Seq<char>, receiver: Seq<char>, token_id: Seq<char>, approval_id: Option<u64>) -> Option<Error> {
    if !c.has_token(token_id) {
        Some(Error::TokenNotFound)
    } else {
        let t0 = c.tokens_by_id@[token_id];
        if sender != t0.owner_id@ && !t0.approved_account_ids@.contains_key(sender) {
            Some(Error::NotOwner)
        } else if sender != t0.owner_id@ && approval_id is Some
            && t0.approved_account_ids@[sender] != approval_id->0 {
            Some(Error::StaleApproval)
        } else if receiver == t0.owner_id@ {
            Some(Error::SelfTransfer)
        } else {
            None
        }
    }
}

/// The token moved from its previous owner to `receiver`: the token table
/// is updated at `token_id` alone, the approvals on the token are cleared,
/// its royalties and approval counter are kept, and an ownership-change
/// event is recorded carrying the acting approved account and the memo. All
/// other state is untouched.
pub open spec fn transferred(
    pre: Contract,
    post: Contract,
    receiver: Seq<char>,
    token_id: Seq<char>,
    authorized: Option<Seq<char>>,
    memo: Option<Seq<char>>,
) -> bool {
    let t0 = pre.tokens_by_id@[token_id];
    let t1 = post.tokens_by_id@[token_id];
    &&& post.tokens_by_id@ == pre.tokens_by_id@.insert(token_id, t1)
    &&& t1.owner_id@ == receiver
    &&& t1.approved_account_ids@ == Map::<Seq<char>, u64>::empty()
    &&& t1.approved_account_ids.kv_seq().len() == 0
    &&& t1.next_approval_id == t0.next_approval_id
    &&& t1.royalty@ == t0.royalty@
    &&& post.events@.len() == pre.events@.len() + 1
    &&& post.events@.drop_last() == pre.events@
    &&& is_transfer_event(post.events@.last(), t0.owner_id@, receiver, token_id, authorized, memo)
    &&& post.owner_id == pre.owner_id
    &&& post.metadata == pre.metadata
    &&& post.token_metadata_by_id == pre.token_metadata_by_id
}

/// When a token changes owner again between a notification dispatch and its
/// continuation, the later transfer has already cleared every approval
/// granted while the stale receiver held it; the continuation then skips the
/// rollback and leaves the state untouched, so no approval of the stale
/// receiver remains attached to the token.
pub proof fn lemma_interim_transfer_clears_approvals(
    pre: Contract,
    post: Contract,
    receiver: Seq<char>,
    token_id: Seq<char>,
    authorized: Option<Seq<char>>,
    memo: Option<Seq<char>>,
)
    requires
        transferred(pre, post, receiver, token_id, authorized, memo),
    ensures
        post.tokens_by_id@[token_id].approved_account_ids@ == Map::<Seq<char>, u64>::empty(),
{
}

impl Contract {
    /// Record token `token_id` under `account_id` in the reverse index.
    pub fn internal_add_token_to_owner(&mut self, token_id: &TokenId, account_id: &AccountId)
        requires
            old(self).tokens_per_owner.wf(),
            forall|o: Seq<char>|
                #[trigger] old(self).tokens_per_owner@.contains_key(o)
                    ==> old(self).tokens_per_owner@[o].wf(),
        ensures
            final(self).tokens_per_owner.wf(),
            forall|o: Seq<char>|
                #[trigger] final(self).tokens_per_owner@.contains_key(o)
                    ==> final(self).tokens_per_owner@[o].wf(),
            forall|o: Seq<char>, t: Seq<char>| #![trigger final(self).owned(o, t)]
                #![trigger old(self).owned(o, t)]
                final(self).owned(o, t) <==> (old(self).owned(o, t) || (o == account_id@ && t
                    == token_id@)),
            forall|o: Seq<char>|
                o != account_id@ ==> (#[trigger] final(self).tokens_per_owner@.contains_key(o)
                    == old(self).tokens_per_owner@.contains_key(o))
                    && (old(self).tokens_per_owner@.contains_key(o)
                        ==> final(self).tokens_per_owner@[o] == old(self).tokens_per_owner@[o]),
            final(self).tokens_per_owner@.contains_key(account_id@),
            final(self).tokens_per_owner@[account_id@].size() > 0,
            final(self).tokens_by_id == old(self).tokens_by_id,
            final(self).token_metadata_by_id == old(self).token_metadata_by_id,
            final(self).owner_id == old(self).owner_id,
            final(self).metadata == old(self).metadata,
            final(self).events == old(self).events,
    {
        let ghost pre = *old(self);
        let set_opt = self.tokens_per_owner.remove(account_id);
        let mut tokens_set = match set_opt {
            Some(s) => s,
            None => StrSet::new(),
        };
        tokens_set.insert(token_id.clone());
        let ghost new_set = tokens_set;
        self.tokens_per_owner.insert(account_id.clone(), tokens_set);
        proof {
            assert(final(self).tokens_per_owner@ =~= pre.tokens_per_owner@.insert(
                account_id@,
                new_set,
            ));
            assert forall|o: Seq<char>, t: Seq<char>|
                final(self).owned(o, t) <==> (pre.owned(o, t) || (o == account_id@ && t
                    == token_id@)) by {
                if o == account_id@ {
                    assert(final(self).tokens_per_owner@[o] == new_set);
                } else {
                    assert(final(self).tokens_per_owner@.contains_key(o)
                        == pre.tokens_per_owner@.contains_key(o));
                }
            }
        }
    }

    /// Strike token `token_id` from `account_id`'s entry in the reverse
    /// index, dropping the entry entirely when it empties.
    pub fn internal_remove_token_from_owner(&mut self, token_id: &TokenId, account_id: &AccountId)
        requires
            old(self).tokens_per_owner.wf(),
            forall|o: Seq<char>|
                #[trigger] old(self).tokens_per_owner@.contains_key(o)
                    ==> old(self).tokens_per_owner@[o].wf(),
            old(self).tokens_per_owner@.contains_key(account_id@),
        ensures
            final(self).tokens_per_owner.wf(),
            forall|o: Seq<char>|
                #[trigger] final(self).tokens_per_owner@.contains_key(o)
                    ==> final(self).tokens_per_owner@[o].wf(),
            forall|o: Seq<char>, t: Seq<char>| #![trigger final(self).owned(o, t)]
                #![trigger old(self).owned(o, t)]
                final(self).owned(o, t) <==> (old(self).owned(o, t) && !(o == account_id@ && t
                    == token_id@)),
            forall|o: Seq<char>|
                o != account_id@ ==> (#[trigger] final(self).tokens_per_owner@.contains_key(o)
                    == old(self).tokens_per_owner@.contains_key(o))
                    && (old(self).tokens_per_owner@.contains_key(o)
                        ==> final(self).tokens_per_owner@[o] == old(self).tokens_per_owner@[o]),
            final(self).tokens_per_owner@.contains_key(account_id@)
                ==> final(self).tokens_per_owner@[account_id@].size() > 0,
            final(self).tokens_by_id == old(self).tokens_by_id,
            final(self).token_metadata_by_id == old(self).token_metadata_by_id,
            final(self).owner_id == old(self).owner_id,
            final(self).metadata == old(self).metadata,
            final(self).events == old(self).events,
    {
        let ghost pre = *old(self);
        let set_opt = self.tokens_per_owner.remove(account_id);
        let mut tokens_set = set_opt.unwrap();
        tokens_set.remove(token_id);
        if tokens_set.is_empty() {
            proof {
                assert(tokens_set.m.kv_seq().len() == 0);
                assert(tokens_set@ =~= Set::<Seq<char>>::empty());
                assert(final(self).tokens_per_owner@ =~= pre.tokens_per_owner@.remove(
                    account_id@,
                ));
                assert forall|o: Seq<char>, t: Seq<char>|
                    final(self).owned(o, t) <==> (pre.owned(o, t) && !(o == account_id@ && t
                        == token_id@)) by {
                    if o == account_id@ {
                        assert(!final(self).tokens_per_owner@.contains_key(o));
                        if pre.owned(o, t) && t != token_id@ {
                            assert(tokens_set@.contains(t));
                        }
                    }
                }
            }
        } else {
            let ghost new_set = tokens_set;
            self.tokens_per_owner.insert(account_id.clone(), tokens_set);
            proof {
                assert(final(self).tokens_per_owner@ =~= pre.tokens_per_owner@.insert(
                    account_id@,
                    new_set,
                ));
                assert forall|o: Seq<char>, t: Seq<char>|
                    final(self).owned(o, t) <==> (pre.owned(o, t) && !(o == account_id@ && t
                        == token_id@)) by {
                    if o == account_id@ {
                        assert(final(self).tokens_per_owner@[o] == new_set);
                    } else {
                        assert(final(self).tokens_per_owner@.contains_key(o)
                            == pre.tokens_per_owner@.contains_key(o));
                    }
                }
            }
        }
    }

    /// Move ownership of `token_id` from its owner to `receiver_id`, acting
    /// as `sender_id`, after checking authority. Clears the approvals on the
    /// token, keeps its royalties and approval counter, records an ownership
    /// change event, and returns the pre-transfer token.
    pub fn internal_transfer(
        &mut self,
        sender_id: &AccountId,
        receiver_id: &AccountId,
        token_id: &TokenId,
        approval_id: Option<u64>,
        memo: Option<String>,
    ) -> (r: Result<Token, Error>)
        requires
            old(self).inv(),
        ensures
            final(self).inv(),
            match r {
                Ok(prev) => {
                    &&& transfer_error(*old(self), sender_id@, receiver_id@, token_id@, approval_id)
                        is None
                    &&& prev == old(self).tokens_by_id@[token_id@]
                    &&& transferred(
                        *old(self),
                        *final(self),
                        receiver_id@,
                        token_id@,
                        if approval_id is Some {
                            Some(sender_id@)
                        } else {
                            None
                        },
                        opt_str_view(memo),
                    )
                },
                Err(e) => {
                    &&& *final(self) == *old(self)
                    &&& transfer_error(*old(self), sender_id@, receiver_id@, token_id@, approval_id)
                        == Some(e)
                },
            },
    {
        let ghost pre = *old(self);
        match self.tokens_by_id.get(token_id) {
            Some(token_ref) => {
                if !(*sender_id == token_ref.owner_id) {
                    if !token_ref.approved_account_ids.contains_key(sender_id) {
                        return Err(Error::NotOwner);
                    }
                    if let Some(enforced_approval_id) = approval_id {
                        let actual = token_ref.approved_account_ids.get(sender_id).unwrap();
                        if !(*actual == enforced_approval_id) {
                            return Err(Error::StaleApproval);
                        }
                    }
                }
                if *receiver_id == token_ref.owner_id {
                    return Err(Error::SelfTransfer);
                }
            },
            None => {
                return Err(Error::TokenNotFound);
            },
        }
        let token = self.tokens_by_id.remove(token_id).unwrap();
        let ghost t0 = token;
        let old_owner = token.owner_id.clone();
        proof {
            assert(pre.owned(t0.owner_id@, token_id@));
        }
        self.internal_remove_token_from_owner(token_id, &old_owner);
        let ghost m1 = *self;
        self.internal_add_token_to_owner(token_id, receiver_id);
        let ghost m2 = *self;
        let new_token = Token {
            owner_id: receiver_id.clone(),
            approved_account_ids: StrMap::new(),
            next_approval_id: token.next_approval_id,
            royalty: token.royalty.duplicate(),
        };
        let ghost t1 = new_token;
        self.tokens_by_id.insert(token_id.clone(), new_token);

        let mut authorized_id: Option<AccountId> = None;
        if approval_id.is_some() {
            authorized_id = Some(sender_id.clone());
        }
        let ghost gauth = authorized_id;
        let ghost gmemo = memo;
        let log = NftTransferLog {
            authorized_id,
            old_owner_id: old_owner,
            new_owner_id: receiver_id.clone(),
            token_ids: vec![token_id.clone()],
            memo,
        };
        let event = EventLog {
            standard: "nep171".to_owned(),
            version: "1.0.0".to_owned(),
            event: EventLogVariant::NftTransfer(vec![log]),
        };
        self.events.push(event);

        proof {
            assert(final(self).tokens_by_id@ =~= pre.tokens_by_id@.insert(token_id@, t1));
            assert(final(self).token_metadata_by_id@.dom() =~= final(self).tokens_by_id@.dom());
            assert(final(self).tokens_per_owner == m2.tokens_per_owner);
            assert forall|o: Seq<char>, t: Seq<char>| #[trigger]
                final(self).owned(o, t) == m2.owned(o, t) by {}
            assert forall|t: Seq<char>| #[trigger]
                final(self).tokens_by_id@.contains_key(t) implies final(self).tokens_by_id@[t].wf()
                && final(self).owned(final(self).tokens_by_id@[t].owner_id@, t) by {
                if t == token_id@ {
                    assert(final(self).tokens_by_id@[t] == t1);
                    assert(pre.tokens_by_id@.contains_key(token_id@));
                    assert(t0.wf());
                    super::metadata::lemma_bps_sum_congruent(
                        t0.royalty.kv_seq(),
                        t1.royalty.kv_seq(),
                    );
                    assert(t1.wf());
                    assert(m2.owned(receiver_id@, t));
                    assert(final(self).owned(receiver_id@, t));
                } else {
                    assert(pre.tokens_by_id@.contains_key(t));
                    assert(final(self).tokens_by_id@[t] == pre.tokens_by_id@[t]);
                    let o = pre.tokens_by_id@[t].owner_id@;
                    assert(pre.owned(o, t));
                    assert(m1.owned(o, t));
                    assert(m2.owned(o, t));
                    assert(final(self).owned(o, t));
                }
            }
            assert forall|o: Seq<char>, t: Seq<char>| #[trigger]
                final(self).owned(o, t) implies final(self).tokens_by_id@.contains_key(t)
                && final(self).tokens_by_id@[t].owner_id@ == o by {
                assert(m2.owned(o, t));
                if o == receiver_id@ && t == token_id@ {
                } else {
                    assert(m1.owned(o, t));
                    assert(pre.owned(o, t));
                    assert(!(o == t0.owner_id@ && t == token_id@));
                    assert(t != token_id@) by {
                        if t == token_id@ {
                            assert(pre.tokens_by_id@[t].owner_id@ == o);
                        }
                    }
                }
            }
            let post = *final(self);
            assert(post.tokens_by_id@ == pre.tokens_by_id@.insert(token_id@, t1));
            assert(post.tokens_by_id@[token_id@] == t1);
            assert(t1.owner_id@ == receiver_id@);
            assert(t1.approved_account_ids@ =~= Map::<Seq<char>, u64>::empty());
            assert(t1.approved_account_ids.kv_seq().len() == 0);
            assert(t1.next_approval_id == t0.next_approval_id);
            assert(t1.royalty@ == t0.royalty@);
            assert(post.events@.len() == pre.events@.len() + 1);
            assert(post.events@.drop_last() =~= pre.events@);
            assert(opt_str_view(gauth) == (if approval_id is Some {
                Some(sender_id@)
            } else {
                None
            }));
            assert(is_transfer_event(
                post.events@.last(),
                t0.owner_id@,
                receiver_id@,
                token_id@,
                if approval_id is Some {
                    Some(sender_id@)
                } else {
                    None
                },
                opt_str_view(gmemo),
            ));
            assert(post.owner_id == pre.owner_id);
            assert(post.metadata == pre.metadata);
            assert(post.token_metadata_by_id == pre.token_metadata_by_id);
            assert(transferred(
                pre,
                post,
                receiver_id@,
                token_id@,
                if approval_id is Some {
                    Some(sender_id@)
                } else {
                    None
                },
                opt_str_view(gmemo),
            ));
        }
        Ok(token)
    }
}

} // verus!
