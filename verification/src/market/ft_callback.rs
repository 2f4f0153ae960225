//! The token-denominated purchase path: payment arrives as a token
//! transfer, and settlement instructs the token contract instead of moving
//! native value. The state machine is the purchase saga of `sale`.

use vstd::prelude::*;
use crate::{AccountId, TokenId};
use crate::actions::{FtTransferAction, PurchaseDispatch};
use crate::errors::Error;
use crate::nft::royalty::payout_entry_total;
use super::{Contract, SalePrice, sale_price_eqv};
use super::sale::{MAX_PAYOUT_ENTRIES, Payout, lemma_entry_total_prefix, payout_valid};

verus! {

/// What a buyer's token transfer asks to purchase.
#[derive(Debug)]
pub struct FTSaleArgs {
    pub nft_contract_id: AccountId,
    pub token_id: TokenId,
}

/// Interface of a token contract, as the market instructs it.
pub trait FungibleTokenCore {
    fn ft_transfer(&mut self, receiver_id: AccountId, amount: u128, memo: Option<String>);
}

/// The continuation refunds the full price to the buyer with one token
/// transfer on the sale's token contract.
pub open spec fn ft_refund_outcome(
    r: (u128, Seq<FtTransferAction>),
    buyer: Seq<char>,
    price: SalePrice,
) -> bool {
    &&& r.0 == price.amount
    &&& r.1.len() == 1
    &&& r.1[0].ft_contract_id@ == price.contract_id@
    &&& r.1[0].receiver_id@ == buyer
    &&& r.1[0].amount == price.amount
}

/// The continuation pays each payout entry with its own token transfer on
/// the sale's token contract and reports nothing left unresolved.
pub open spec fn ft_distribute_outcome(
    r: (u128, Seq<FtTransferAction>),
    price: SalePrice,
    p: Payout,
) -> bool {
    &&& r.0 == 0
    &&& r.1.len() == p.payout.kv_seq().len()
    &&& forall|i: int|
        0 <= i < r.1.len() ==> r.1[i].ft_contract_id@ == price.contract_id@
            && r.1[i].receiver_id@ == p.payout.kv_seq()[i].0@ && r.1[i].amount
            == p.payout.kv_seq()[i].1
}

pub trait FungibleTokenReceiver {
    /// The market this interface operates on.
    spec fn state(&self) -> Contract;

    /// Entry point of a token-denominated purchase: a token contract
    /// reports that `sender_id` transferred `amount` of its token to the
    /// market, asking to buy the sale `args` names. Validates the payment,
    /// then commits by removing the sale and handing back the remote
    /// transfer-with-payout call together with the price to bind into the
    /// continuation.
    fn ft_on_transfer(
        &mut self,
        sender_id: AccountId,
        amount: u128,
        args: FTSaleArgs,
        ft_contract_id: AccountId,
    ) -> (r: Result<(PurchaseDispatch, SalePrice), Error>)
        requires
            old(self).state().inv(),
        ensures
            final(self).state().inv(),
            final(self).state().storage_deposit == old(self).state().storage_deposit,
            final(self).state().owner_id == old(self).state().owner_id,
            match r {
                Ok(out) => {
                    let key = (args.nft_contract_id@, args.token_id@);
                    let sale = old(self).state().sales@[key];
                    &&& old(self).state().has_sale(key)
                    &&& amount >= sale.sale_conditions.amount
                    &&& sale.owner_id@ != sender_id@
                    &&& !sale.sale_conditions.is_native
                    &&& ft_contract_id@ == sale.sale_conditions.contract_id@
                    &&& final(self).state().sales@ == old(self).state().sales@.remove(key)
                    &&& !final(self).state().has_sale(key)
                    &&& out.0.nft_contract_id@ == args.nft_contract_id@
                    &&& out.0.receiver_id@ == sender_id@
                    &&& out.0.token_id@ == args.token_id@
                    &&& out.0.approval_id == sale.approval_id
                    &&& out.0.balance == sale.sale_conditions.amount
                    &&& out.0.max_len_payout == MAX_PAYOUT_ENTRIES
                    &&& sale_price_eqv(out.1, sale.sale_conditions)
                },
                Err(e) => {
                    let key = (args.nft_contract_id@, args.token_id@);
                    &&& final(self).state() == old(self).state()
                    &&& (if !old(self).state().has_sale(key) {
                        e == Error::SaleNotFound
                    } else {
                        let sale = old(self).state().sales@[key];
                        if amount < sale.sale_conditions.amount {
                            e == Error::InsufficientPayment
                        } else if sale.owner_id@ == sender_id@ {
                            e == Error::SelfPurchase
                        } else {
                            e == Error::CurrencyMismatch && (sale.sale_conditions.is_native
                                || ft_contract_id@ != sale.sale_conditions.contract_id@)
                        }
                    })
                },
            },
    ;
}

impl FungibleTokenReceiver for Contract {
    open spec fn state(&self) -> Contract {
        *self
    }

    fn ft_on_transfer(
        &mut self,
        sender_id: AccountId,
        amount: u128,
        args: FTSaleArgs,
        ft_contract_id: AccountId,
    ) -> (r: Result<(PurchaseDispatch, SalePrice), Error>) {
        let FTSaleArgs { nft_contract_id, token_id } = args;
        let price: SalePrice;
        match self.sales.get(&nft_contract_id, &token_id) {
            None => {
                return Err(Error::SaleNotFound);
            },
            Some(sale_ref) => {
                if amount < sale_ref.sale_conditions.amount {
                    return Err(Error::InsufficientPayment);
                }
                if sender_id == sale_ref.owner_id {
                    return Err(Error::SelfPurchase);
                }
                if sale_ref.sale_conditions.is_native
                    || !(ft_contract_id == sale_ref.sale_conditions.contract_id) {
                    return Err(Error::CurrencyMismatch);
                }
                price = sale_ref.sale_conditions.duplicate();
            },
        }
        self.ft_process_purchase(nft_contract_id, token_id, price, sender_id)
    }
}

impl Contract {
    /// Commit point of a token-denominated purchase: remove the sale
    /// unconditionally and hand back the remote transfer-with-payout call,
    /// together with the price the continuation settles against.
    pub fn ft_process_purchase(
        &mut self,
        nft_contract_id: AccountId,
        token_id: TokenId,
        price: SalePrice,
        buyer_id: AccountId,
    ) -> (r: Result<(PurchaseDispatch, SalePrice), Error>)
        requires
            old(self).inv(),
        ensures
            final(self).inv(),
            final(self).storage_deposit == old(self).storage_deposit,
            final(self).owner_id == old(self).owner_id,
            match r {
                Ok(out) => {
                    let key = (nft_contract_id@, token_id@);
                    let sale = old(self).sales@[key];
                    &&& old(self).has_sale(key)
                    &&& final(self).sales@ == old(self).sales@.remove(key)
                    &&& !final(self).has_sale(key)
                    &&& out.0.nft_contract_id@ == nft_contract_id@
                    &&& out.0.receiver_id@ == buyer_id@
                    &&& out.0.token_id@ == token_id@
                    &&& out.0.approval_id == sale.approval_id
                    &&& out.0.balance == price.amount
                    &&& out.0.max_len_payout == MAX_PAYOUT_ENTRIES
                    &&& out.0.memo@ == "Payout from market contract"@
                    &&& out.1 == price
                },
                Err(e) => {
                    &&& e == Error::SaleNotFound
                    &&& !old(self).has_sale((nft_contract_id@, token_id@))
                    &&& *final(self) == *old(self)
                },
            },
    {
        let dispatch_contract = nft_contract_id.clone();
        let dispatch_token = token_id.clone();
        let sale = match self.internal_remove_sale(nft_contract_id, token_id) {
            Ok(s) => s,
            Err(e) => {
                return Err(e);
            },
        };
        let balance = price.amount;
        Ok(
            (
                PurchaseDispatch {
                    nft_contract_id: dispatch_contract,
                    receiver_id: buyer_id,
                    token_id: dispatch_token,
                    approval_id: sale.approval_id,
                    memo: "Payout from market contract".to_owned(),
                    balance,
                    max_len_payout: MAX_PAYOUT_ENTRIES,
                },
                price,
            ),
        )
    }

    /// Continuation of a token-denominated purchase: validate the payout
    /// the remote call reported against the bound price and either
    /// distribute it, one token transfer per entry, or refund the full
    /// price to the buyer. Reads no sale state: the sale is already gone.
    /// Returns the amount left unresolved: zero when distributed, the full
    /// price when refunded.
    #[verifier::loop_isolation(false)]
    pub fn ft_resolve_purchase(
        &mut self,
        buyer_id: AccountId,
        price: SalePrice,
        result: Option<Payout>,
    ) -> (r: (u128, Vec<FtTransferAction>))
        ensures
            *final(self) == *old(self),
            match result {
                None => ft_refund_outcome((r.0, r.1@), buyer_id@, price),
                Some(p) => {
                    if payout_valid(price.amount, p) {
                        ft_distribute_outcome((r.0, r.1@), price, p)
                    } else {
                        ft_refund_outcome((r.0, r.1@), buyer_id@, price)
                    }
                },
            },
    {
        let ghost gprice = price;
        let payout = match &result {
            Some(p) => p,
            None => {
                let mut refunds: Vec<FtTransferAction> = Vec::new();
                refunds.push(
                    FtTransferAction {
                        ft_contract_id: price.contract_id.clone(),
                        receiver_id: buyer_id,
                        amount: price.amount,
                    },
                );
                return (price.amount, refunds);
            },
        };
        let entries = payout.payout.pairs();
        let n = entries.len();
        if n > 10 || n == 0 {
            let mut refunds: Vec<FtTransferAction> = Vec::new();
            refunds.push(
                FtTransferAction {
                    ft_contract_id: price.contract_id.clone(),
                    receiver_id: buyer_id,
                    amount: price.amount,
                },
            );
            return (price.amount, refunds);
        }
        let ghost gp = *payout;
        let ghost s = payout.payout.kv_seq();
        let mut remainder: u128 = price.amount;
        let mut i: usize = 0;
        while i < n
            invariant
                n == s.len(),
                entries@ == s,
                gp.payout.kv_seq() == s,
                result == Some(gp),
                0 <= i <= n,
                remainder == price.amount - payout_entry_total(s.subrange(0, i as int)),
                payout_entry_total(s.subrange(0, i as int)) <= price.amount,
            decreases n - i,
        {
            proof {
                assert(s.subrange(0, i + 1).drop_last() =~= s.subrange(0, i as int));
            }
            let value = entries[i].1;
            match remainder.checked_sub(value) {
                Some(rest) => {
                    remainder = rest;
                },
                None => {
                    proof {
                        assert(s.subrange(0, i + 1).last() == s[i as int]);
                        lemma_entry_total_prefix(s, i + 1);
                        assert(payout_entry_total(s) > price.amount);
                        assert(!payout_valid(price.amount, gp));
                    }
                    let mut refunds: Vec<FtTransferAction> = Vec::new();
                    refunds.push(
                        FtTransferAction {
                            ft_contract_id: price.contract_id.clone(),
                            receiver_id: buyer_id,
                            amount: price.amount,
                        },
                    );
                    return (price.amount, refunds);
                },
            }
            i = i + 1;
        }
        proof {
            assert(s.subrange(0, n as int) =~= s);
        }
        if !(remainder == 0 || remainder == 1) {
            let mut refunds: Vec<FtTransferAction> = Vec::new();
            refunds.push(
                FtTransferAction {
                    ft_contract_id: price.contract_id.clone(),
                    receiver_id: buyer_id,
                    amount: price.amount,
                },
            );
            return (price.amount, refunds);
        }

        let token_contract = price.contract_id.clone();
        let ghost tc: Seq<char> = price.contract_id@;
        let mut transfers: Vec<FtTransferAction> = Vec::new();
        let mut j: usize = 0;
        while j < n
            invariant
                n == s.len(),
                entries@ == s,
                token_contract@ == tc,
                0 <= j <= n,
                transfers@.len() == j,
                forall|k: int|
                    0 <= k < j ==> (#[trigger] transfers@[k]).ft_contract_id@ == tc
                        && transfers@[k].receiver_id@ == s[k].0@ && transfers@[k].amount
                        == s[k].1,
            decreases n - j,
        {
            let receiver = entries[j].0.clone();
            let amount = entries[j].1;
            let fc = token_contract.clone();
            let e = FtTransferAction { ft_contract_id: fc, receiver_id: receiver, amount: amount };
            let ghost ge = e;
            proof {
                assert(ge.ft_contract_id@ == tc);
                assert(ge.receiver_id@ == s[j as int].0@);
                assert(ge.amount == s[j as int].1);
            }
            let ghost before = transfers@;
            transfers.push(e);
            proof {
                assert(transfers@ == before.push(ge));
                assert forall|k: int|
                    0 <= k < j + 1 implies (#[trigger] transfers@[k]).ft_contract_id@ == tc
                    && transfers@[k].receiver_id@ == s[k].0@ && transfers@[k].amount
                    == s[k].1 by {
                    if k < j {
                        assert(transfers@[k] == before[k]);
                    } else {
                        assert(transfers@[k] == ge);
                    }
                }
            }
            j = j + 1;
        }
        (0, transfers)
    }
}

} // verus!
