//! The purchase saga: listing management entry points, the optimistic
//! removal and dispatch, and the resolving continuation that validates the
//! payout and distributes or refunds.

use vstd::prelude::*;
use crate::{AccountId, TokenId};
use crate::actions::{PurchaseDispatch, TransferAction};
use crate::errors::Error;
use crate::nft::royalty::payout_entry_total;
use crate::smap::StrMap;
use super::{Contract, Sale, SalePrice};

verus! {

/// Per-account payout, as a remote token contract reports it.
#[derive(Debug)]
pub struct Payout {
    pub payout: StrMap<u128>,
}

/// The payout cap handed to the remote transfer call.
pub const MAX_PAYOUT_ENTRIES: u32 = 10;

/// Interface of a token contract, as the market asks it to transfer a sold
/// token and report the payout.
pub trait NFTContract {
    fn nft_transfer_payout(
        &mut self,
        receiver_id: AccountId,
        token_id: TokenId,
        approval_id: u64,
        memo: String,
        balance: u128,
        max_len_payout: u32,
    ) -> Payout;
}

/// A reported payout settles `price`: it has between one and ten entries,
/// and their total falls short of the price by at most one unit.
pub open spec fn payout_valid(price: u128, p: Payout) -> bool {
    &&& 1 <= p.payout.kv_seq().len() <= 10
    &&& 0 <= price - payout_entry_total(p.payout.kv_seq()) <= 1
}

/// The continuation refunds the full price to the buyer with one transfer.
pub open spec fn refund_outcome(r: (u128, Seq<TransferAction>), buyer: Seq<char>, price: u128) -> bool {
    &&& r.0 == price
    &&& r.1.len() == 1
    &&& r.1[0].receiver_id@ == buyer
    &&& r.1[0].amount == price
}

/// The continuation pays each payout entry with its own transfer and
/// reports nothing left unresolved.
pub open spec fn distribute_outcome(r: (u128, Seq<TransferAction>), p: Payout) -> bool {
    &&& r.0 == 0
    &&& r.1.len() == p.payout.kv_seq().len()
    &&& forall|i: int|
        0 <= i < r.1.len() ==> r.1[i].receiver_id@ == p.payout.kv_seq()[i].0@
            && r.1[i].amount == p.payout.kv_seq()[i].1
}

pub(crate) proof fn lemma_entry_total_prefix(s: Seq<(String, u128)>, i: int)
    requires
        0 <= i <= s.len(),
    ensures
        payout_entry_total(s.subrange(0, i)) <= payout_entry_total(s),
    decreases s.len() - i,
{
    if i == s.len() {
        assert(s.subrange(0, i) =~= s);
    } else {
        lemma_entry_total_prefix(s, i + 1);
        assert(s.subrange(0, i + 1).drop_last() =~= s.subrange(0, i));
    }
}

/// Optimistic-removal law of the purchase saga: once `process_purchase` or
/// `ft_process_purchase` commits by removing a sale, the sale is absent,
/// and it stays absent through `resolve_purchase` and
/// `ft_resolve_purchase`, whose contracts leave the market untouched —
/// even when the remote transfer call fails.
pub proof fn lemma_sale_stays_removed(
    pre: Contract,
    committed: Contract,
    resolved: Contract,
    key: (Seq<char>, Seq<char>),
)
    requires
        committed.sales@ == pre.sales@.remove(key),
        resolved == committed,
    ensures
        !committed.has_sale(key),
        !resolved.has_sale(key),
{
}

/// Cancellation law: a successful removal leaves no sale under the key, so
/// a second `remove_sale` on the same key reports `SaleNotFound` by its
/// contract, and by the same contract an unsuccessful removal changes
/// nothing — no index is ever left half-updated.
pub proof fn lemma_remove_sale_idempotent(pre: Contract, post: Contract, key: (Seq<char>, Seq<char>))
    requires
        post.sales@ == pre.sales@.remove(key),
    ensures
        !post.has_sale(key),
{
}

impl Contract {
    /// Cancel the sale under `(nft_contract_id, token_id)`. Only its seller
    /// may cancel it.
    pub fn remove_sale(
        &mut self,
        nft_contract_id: AccountId,
        token_id: TokenId,
        predecessor_id: AccountId,
        attached_deposit: u128,
    ) -> (r: Result<(), Error>)
        requires
            old(self).inv(),
            attached_deposit == 1,
        ensures
            final(self).inv(),
            final(self).storage_deposit == old(self).storage_deposit,
            final(self).owner_id == old(self).owner_id,
            match r {
                Ok(()) => {
                    &&& old(self).has_sale((nft_contract_id@, token_id@))
                    &&& old(self).sales@[(nft_contract_id@, token_id@)].owner_id@
                        == predecessor_id@
                    &&& final(self).sales@ == old(self).sales@.remove(
                        (nft_contract_id@, token_id@),
                    )
                },
                Err(e) => {
                    &&& *final(self) == *old(self)
                    &&& (if !old(self).has_sale((nft_contract_id@, token_id@)) {
                        e == Error::SaleNotFound
                    } else {
                        e == Error::NotOwner && old(
                            self,
                        ).sales@[(nft_contract_id@, token_id@)].owner_id@ != predecessor_id@
                    })
                },
            },
    {
        match self.sales.get(&nft_contract_id, &token_id) {
            None => {
                return Err(Error::SaleNotFound);
            },
            Some(sale_ref) => {
                if !(predecessor_id == sale_ref.owner_id) {
                    return Err(Error::NotOwner);
                }
            },
        }
        match self.internal_remove_sale(nft_contract_id, token_id) {
            Ok(_sale) => Ok(()),
            Err(e) => {
                proof {
                    assert(false);
                }
                Err(e)
            },
        }
    }

    /// Replace the price of the sale under `(nft_contract_id, token_id)`.
    /// Only its seller may change it.
    pub fn update_price(
        &mut self,
        nft_contract_id: AccountId,
        token_id: TokenId,
        price: SalePrice,
        predecessor_id: AccountId,
        attached_deposit: u128,
    ) -> (r: Result<(), Error>)
        requires
            old(self).inv(),
            attached_deposit == 1,
        ensures
            final(self).inv(),
            final(self).storage_deposit == old(self).storage_deposit,
            final(self).owner_id == old(self).owner_id,
            match r {
                Ok(()) => {
                    let s0 = old(self).sales@[(nft_contract_id@, token_id@)];
                    let s1 = final(self).sales@[(nft_contract_id@, token_id@)];
                    &&& old(self).has_sale((nft_contract_id@, token_id@))
                    &&& s0.owner_id@ == predecessor_id@
                    &&& final(self).sales@ == old(self).sales@.insert(
                        (nft_contract_id@, token_id@),
                        s1,
                    )
                    &&& s1.owner_id@ == s0.owner_id@
                    &&& s1.approval_id == s0.approval_id
                    &&& s1.sale_conditions == price
                    &&& final(self).by_owner_id == old(self).by_owner_id
                    &&& final(self).by_contract_id == old(self).by_contract_id
                },
                Err(e) => {
                    &&& *final(self) == *old(self)
                    &&& (if !old(self).has_sale((nft_contract_id@, token_id@)) {
                        e == Error::SaleNotFound
                    } else {
                        e == Error::NotOwner && old(
                            self,
                        ).sales@[(nft_contract_id@, token_id@)].owner_id@ != predecessor_id@
                    })
                },
            },
    {
        let ghost pre = *old(self);
        let ghost key = (nft_contract_id@, token_id@);
        match self.sales.get(&nft_contract_id, &token_id) {
            None => {
                return Err(Error::SaleNotFound);
            },
            Some(sale_ref) => {
                if !(predecessor_id == sale_ref.owner_id) {
                    return Err(Error::NotOwner);
                }
            },
        }
        let mut sale = self.sales.remove(&nft_contract_id, &token_id).unwrap();
        sale.sale_conditions = price;
        let ghost s1 = sale;
        self.sales.insert(nft_contract_id, token_id, sale);
        proof {
            assert(self.sales@ =~= pre.sales@.insert(key, s1));
            let post = *self;
            assert forall|o: Seq<char>, k: (Seq<char>, Seq<char>)| #[trigger]
                post.listed_by_owner(o, k) == pre.listed_by_owner(o, k) by {}
            assert forall|c: Seq<char>, t: Seq<char>| #[trigger]
                post.listed_by_contract(c, t) == pre.listed_by_contract(c, t) by {}
            assert forall|k: (Seq<char>, Seq<char>)| #[trigger]
                post.sales@.contains_key(k) implies post.sales@[k].nft_contract_id@ == k.0
                && post.sales@[k].token_id@ == k.1 && post.listed_by_owner(
                post.sales@[k].owner_id@,
                k,
            ) && post.listed_by_contract(k.0, k.1) by {
                assert(pre.sales@.contains_key(k));
                assert(pre.listed_by_owner(pre.sales@[k].owner_id@, k));
                assert(pre.listed_by_contract(k.0, k.1));
            }
            assert forall|o: Seq<char>, k: (Seq<char>, Seq<char>)| #[trigger]
                post.listed_by_owner(o, k) implies post.sales@.contains_key(k)
                && post.sales@[k].owner_id@ == o by {
                assert(pre.listed_by_owner(o, k));
            }
            assert forall|c: Seq<char>, t: Seq<char>| #[trigger]
                post.listed_by_contract(c, t) implies post.sales@.contains_key((c, t)) by {
                assert(pre.listed_by_contract(c, t));
            }
        }
        Ok(())
    }

    /// A native-currency purchase bid: validate the payment against the
    /// sale, then commit by removing the sale and dispatching the remote
    /// transfer-with-payout call.
    pub fn offer(
        &mut self,
        nft_contract_id: AccountId,
        token_id: TokenId,
        attached_deposit: u128,
        buyer_id: AccountId,
    ) -> (r: Result<PurchaseDispatch, Error>)
        requires
            old(self).inv(),
        ensures
            final(self).inv(),
            final(self).storage_deposit == old(self).storage_deposit,
            final(self).owner_id == old(self).owner_id,
            match r {
                Ok(d) => {
                    let sale = old(self).sales@[(nft_contract_id@, token_id@)];
                    &&& attached_deposit > 0
                    &&& old(self).has_sale((nft_contract_id@, token_id@))
                    &&& sale.owner_id@ != buyer_id@
                    &&& attached_deposit >= sale.sale_conditions.amount
                    &&& sale.sale_conditions.is_native
                    &&& final(self).sales@ == old(self).sales@.remove(
                        (nft_contract_id@, token_id@),
                    )
                    &&& !final(self).has_sale((nft_contract_id@, token_id@))
                    &&& d.nft_contract_id@ == nft_contract_id@
                    &&& d.receiver_id@ == buyer_id@
                    &&& d.token_id@ == token_id@
                    &&& d.approval_id == sale.approval_id
                    &&& d.balance == attached_deposit
                    &&& d.max_len_payout == MAX_PAYOUT_ENTRIES
                    &&& d.memo@ == "Payout from market contract"@
                },
                Err(e) => {
                    &&& *final(self) == *old(self)
                    &&& (if attached_deposit == 0 {
                        e == Error::InsufficientPayment
                    } else if !old(self).has_sale((nft_contract_id@, token_id@)) {
                        e == Error::SaleNotFound
                    } else {
                        let sale = old(self).sales@[(nft_contract_id@, token_id@)];
                        if sale.owner_id@ == buyer_id@ {
                            e == Error::SelfPurchase
                        } else if attached_deposit < sale.sale_conditions.amount {
                            e == Error::InsufficientPayment
                        } else {
                            e == Error::CurrencyMismatch && !sale.sale_conditions.is_native
                        }
                    })
                },
            },
    {
        if attached_deposit == 0 {
            return Err(Error::InsufficientPayment);
        }
        match self.sales.get(&nft_contract_id, &token_id) {
            None => {
                return Err(Error::SaleNotFound);
            },
            Some(sale_ref) => {
                if buyer_id == sale_ref.owner_id {
                    return Err(Error::SelfPurchase);
                }
                if attached_deposit < sale_ref.sale_conditions.amount {
                    return Err(Error::InsufficientPayment);
                }
                if !sale_ref.sale_conditions.is_native {
                    return Err(Error::CurrencyMismatch);
                }
            },
        }
        self.process_purchase(nft_contract_id, token_id, attached_deposit, buyer_id)
    }

    /// Commit point of the purchase saga: remove the sale unconditionally
    /// and hand back the remote transfer-with-payout call to dispatch. From
    /// here the sale no longer exists, whatever the remote outcome.
    pub fn process_purchase(
        &mut self,
        nft_contract_id: AccountId,
        token_id: TokenId,
        price: u128,
        buyer_id: AccountId,
    ) -> (r: Result<PurchaseDispatch, Error>)
        requires
            old(self).inv(),
        ensures
            final(self).inv(),
            final(self).storage_deposit == old(self).storage_deposit,
            final(self).owner_id == old(self).owner_id,
            match r {
                Ok(d) => {
                    let sale = old(self).sales@[(nft_contract_id@, token_id@)];
                    &&& old(self).has_sale((nft_contract_id@, token_id@))
                    &&& final(self).sales@ == old(self).sales@.remove(
                        (nft_contract_id@, token_id@),
                    )
                    &&& !final(self).has_sale((nft_contract_id@, token_id@))
                    &&& d.nft_contract_id@ == nft_contract_id@
                    &&& d.receiver_id@ == buyer_id@
                    &&& d.token_id@ == token_id@
                    &&& d.approval_id == sale.approval_id
                    &&& d.balance == price
                    &&& d.max_len_payout == MAX_PAYOUT_ENTRIES
                    &&& d.memo@ == "Payout from market contract"@
                },
                Err(e) => {
                    &&& e == Error::SaleNotFound
                    &&& !old(self).has_sale((nft_contract_id@, token_id@))
                    &&& *final(self) == *old(self)
                },
            },
    {
        let dispatch_contract = nft_contract_id.clone();
        let dispatch_token = token_id.clone();
        let sale = match self.internal_remove_sale(nft_contract_id, token_id) {
            Ok(s) => s,
            Err(e) => {
                return Err(e);
            },
        };
        Ok(
            PurchaseDispatch {
                nft_contract_id: dispatch_contract,
                receiver_id: buyer_id,
                token_id: dispatch_token,
                approval_id: sale.approval_id,
                memo: "Payout from market contract".to_owned(),
                balance: price,
                max_len_payout: MAX_PAYOUT_ENTRIES,
            },
        )
    }

    /// Continuation of a native purchase: validate the payout the remote
    /// call reported and either distribute it, one transfer per entry, or
    /// refund the full price to the buyer. Reads no sale state: the sale is
    /// already gone. Returns the amount left unresolved: zero when
    /// distributed, the full price when refunded.
    pub fn resolve_purchase(
        &mut self,
        buyer_id: AccountId,
        price: u128,
        result: Option<Payout>,
    ) -> (r: (u128, Vec<TransferAction>))
        ensures
            *final(self) == *old(self),
            match result {
                None => refund_outcome((r.0, r.1@), buyer_id@, price),
                Some(p) => {
                    if payout_valid(price, p) {
                        distribute_outcome((r.0, r.1@), p)
                    } else {
                        refund_outcome((r.0, r.1@), buyer_id@, price)
                    }
                },
            },
    {
        let payout = match &result {
            Some(p) => p,
            None => {
                let mut refunds: Vec<TransferAction> = Vec::new();
                refunds.push(TransferAction { receiver_id: buyer_id, amount: price });
                return (price, refunds);
            },
        };
        let entries = payout.payout.pairs();
        let n = entries.len();
        if n > 10 || n == 0 {
            let mut refunds: Vec<TransferAction> = Vec::new();
            refunds.push(TransferAction { receiver_id: buyer_id, amount: price });
            return (price, refunds);
        }
        let ghost gp = *payout;
        let ghost s = payout.payout.kv_seq();
        let mut remainder: u128 = price;
        let mut i: usize = 0;
        while i < n
            invariant
                n == s.len(),
                entries@ == s,
                gp.payout.kv_seq() == s,
                result == Some(gp),
                0 <= i <= n,
                remainder == price - payout_entry_total(s.subrange(0, i as int)),
                payout_entry_total(s.subrange(0, i as int)) <= price,
            decreases n - i,
        {
            proof {
                assert(s.subrange(0, i + 1).drop_last() =~= s.subrange(0, i as int));
            }
            let value = entries[i].1;
            match remainder.checked_sub(value) {
                Some(rest) => {
                    remainder = rest;
                },
                None => {
                    proof {
                        assert(s.subrange(0, i + 1).last() == s[i as int]);
                        assert(payout_entry_total(s.subrange(0, i + 1)) == payout_entry_total(
                            s.subrange(0, i as int),
                        ) + s[i as int].1);
                        lemma_entry_total_prefix(s, i + 1);
                        assert(payout_entry_total(s) > price);
                        assert(gp.payout.kv_seq() == s);
                        assert(payout_entry_total(gp.payout.kv_seq()) > price);
                        assert(!(0 <= price - payout_entry_total(gp.payout.kv_seq()) <= 1));
                        assert(!payout_valid(price, gp));
                    }
                    let mut refunds: Vec<TransferAction> = Vec::new();
                    refunds.push(TransferAction { receiver_id: buyer_id, amount: price });
                    return (price, refunds);
                },
            }
            i = i + 1;
        }
        proof {
            assert(s.subrange(0, n as int) =~= s);
        }
        if !(remainder == 0 || remainder == 1) {
            let mut refunds: Vec<TransferAction> = Vec::new();
            refunds.push(TransferAction { receiver_id: buyer_id, amount: price });
            return (price, refunds);
        }

        let mut transfers: Vec<TransferAction> = Vec::new();
        let mut j: usize = 0;
        while j < n
            invariant
                n == s.len(),
                entries@ == s,
                0 <= j <= n,
                transfers@.len() == j,
                forall|k: int|
                    0 <= k < j ==> transfers@[k].receiver_id@ == s[k].0@ && transfers@[k].amount
                        == s[k].1,
            decreases n - j,
        {
            let receiver = entries[j].0.clone();
            let amount = entries[j].1;
            transfers.push(TransferAction { receiver_id: receiver, amount });
            j = j + 1;
        }
        (0, transfers)
    }
}

} // verus!
