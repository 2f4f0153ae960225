//! The market: active sales with their secondary indices, storage
//! reservations for sellers, and the purchase saga.

pub mod ft_callback;
pub mod internal;
pub mod nft_callback;
pub mod sale;
pub mod sale_view;

use vstd::prelude::*;
use crate::{AccountId, TokenId};
use crate::actions::TransferAction;
use crate::smap::{PairMap, PairSet, StrMap, StrSet};

verus! {

/// Identifier of the contract a token lives on.
pub type NFTContractId = String;

/// Storage reservation one sale occupies, in native units.
pub const STORAGE_PER_SALE: u128 = 10_000_000_000_000_000_000_000;

/// Price of a sale: either in native units, or denominated in the token of
/// another contract.
#[derive(Debug)]
pub struct SalePrice {
    pub is_native: bool,
    pub contract_id: AccountId,
    pub decimals: u64,
    pub amount: u128,
}

/// The two prices name the same currency and amount.
pub open spec fn sale_price_eqv(a: SalePrice, b: SalePrice) -> bool {
    &&& a.is_native == b.is_native
    &&& a.contract_id@ == b.contract_id@
    &&& a.decimals == b.decimals
    &&& a.amount == b.amount
}

impl SalePrice {
    /// A copy naming the same currency and amount.
    pub fn duplicate(&self) -> (r: Self)
        ensures
            sale_price_eqv(r, *self),
    {
        SalePrice {
            is_native: self.is_native,
            contract_id: self.contract_id.clone(),
            decimals: self.decimals,
            amount: self.amount,
        }
    }
}

/// A standing offer to sell one token at one price.
#[derive(Debug)]
pub struct Sale {
    pub owner_id: AccountId,
    pub approval_id: u64,
    pub nft_contract_id: NFTContractId,
    pub token_id: TokenId,
    pub sale_conditions: SalePrice,
}

/// The two sales name the same seller, approval, token and price.
pub open spec fn sale_eqv(a: Sale, b: Sale) -> bool {
    &&& a.owner_id@ == b.owner_id@
    &&& a.approval_id == b.approval_id
    &&& a.nft_contract_id@ == b.nft_contract_id@
    &&& a.token_id@ == b.token_id@
    &&& sale_price_eqv(a.sale_conditions, b.sale_conditions)
}

impl Sale {
    /// A copy naming the same seller, approval, token and price.
    pub fn duplicate(&self) -> (r: Self)
        ensures
            sale_eqv(r, *self),
    {
        Sale {
            owner_id: self.owner_id.clone(),
            approval_id: self.approval_id,
            nft_contract_id: self.nft_contract_id.clone(),
            token_id: self.token_id.clone(),
            sale_conditions: self.sale_conditions.duplicate(),
        }
    }
}

pub struct Contract {
    pub owner_id: AccountId,
    /// The authoritative sale table, keyed by token contract and token id.
    pub sales: PairMap<Sale>,
    /// Secondary index: the sale keys each seller holds.
    pub by_owner_id: StrMap<PairSet>,
    /// Secondary index: the listed token ids of each token contract.
    pub by_contract_id: StrMap<StrSet>,
    /// Native value each account has reserved to cover sale storage.
    pub storage_deposit: StrMap<u128>,
}

impl Contract {
    /// The seller index lists sale key `k` under account `o`.
    pub open spec fn listed_by_owner(&self, o: Seq<char>, k: (Seq<char>, Seq<char>)) -> bool {
        self.by_owner_id@.contains_key(o) && self.by_owner_id@[o]@.contains(k)
    }

    /// The contract index lists token `t` under token contract `c`.
    pub open spec fn listed_by_contract(&self, c: Seq<char>, t: Seq<char>) -> bool {
        self.by_contract_id@.contains_key(c) && self.by_contract_id@[c]@.contains(t)
    }

    /// An active sale stands under key `k`.
    pub open spec fn has_sale(&self, k: (Seq<char>, Seq<char>)) -> bool {
        self.sales@.contains_key(k)
    }

    /// Well-formedness: all stores are well formed, every sale records its
    /// own key, and both secondary indices agree exactly with the sale
    /// table, never keeping an empty set.
    pub open spec fn inv(&self) -> bool {
        &&& self.sales.wf()
        &&& self.by_owner_id.wf()
        &&& self.by_contract_id.wf()
        &&& self.storage_deposit.wf()
        &&& forall|k: (Seq<char>, Seq<char>)| #[trigger]
            self.sales@.contains_key(k) ==> self.sales@[k].nft_contract_id@ == k.0
                && self.sales@[k].token_id@ == k.1
        &&& forall|o: Seq<char>| #[trigger]
            self.by_owner_id@.contains_key(o) ==> self.by_owner_id@[o].wf()
                && self.by_owner_id@[o].size() > 0
        &&& forall|c: Seq<char>| #[trigger]
            self.by_contract_id@.contains_key(c) ==> self.by_contract_id@[c].wf()
                && self.by_contract_id@[c].size() > 0
        &&& forall|k: (Seq<char>, Seq<char>)| #[trigger]
            self.sales@.contains_key(k) ==> self.listed_by_owner(self.sales@[k].owner_id@, k)
                && self.listed_by_contract(k.0, k.1)
        &&& forall|o: Seq<char>, k: (Seq<char>, Seq<char>)| #[trigger]
            self.listed_by_owner(o, k) ==> self.sales@.contains_key(k)
                && self.sales@[k].owner_id@ == o
        &&& forall|c: Seq<char>, t: Seq<char>| #[trigger]
            self.listed_by_contract(c, t) ==> self.sales@.contains_key((c, t))
    }

    pub fn new(owner_id: AccountId) -> (c: Self)
        ensures
            c.inv(),
            c.owner_id@ == owner_id@,
            c.sales@ == Map::<(Seq<char>, Seq<char>), Sale>::empty(),
            c.by_owner_id@ == Map::<Seq<char>, PairSet>::empty(),
            c.by_contract_id@ == Map::<Seq<char>, StrSet>::empty(),
            c.storage_deposit@ == Map::<Seq<char>, u128>::empty(),
    {
        Contract {
            owner_id,
            sales: PairMap::new(),
            by_owner_id: StrMap::new(),
            by_contract_id: StrMap::new(),
            storage_deposit: StrMap::new(),
        }
    }

    /// Add the attached deposit to an account's storage reservation; the
    /// account defaults to the caller.
    pub fn storage_deposit(
        &mut self,
        account_id: Option<AccountId>,
        predecessor_id: AccountId,
        attached_deposit: u128,
    ) -> (r: ())
        requires
            old(self).inv(),
            attached_deposit >= STORAGE_PER_SALE,
            ({
                let a = match account_id {
                    Some(ref a) => a@,
                    None => predecessor_id@,
                };
                (if old(self).storage_deposit@.contains_key(a) {
                    old(self).storage_deposit@[a] as int
                } else {
                    0int
                }) + attached_deposit <= u128::MAX
            }),
        ensures
            final(self).inv(),
            ({
                let a = match account_id {
                    Some(ref a) => a@,
                    None => predecessor_id@,
                };
                let before = if old(self).storage_deposit@.contains_key(a) {
                    old(self).storage_deposit@[a] as int
                } else {
                    0int
                };
                &&& final(self).storage_deposit@ == old(self).storage_deposit@.insert(
                    a,
                    (before + attached_deposit) as u128,
                )
                &&& final(self).sales == old(self).sales
                &&& final(self).by_owner_id == old(self).by_owner_id
                &&& final(self).by_contract_id == old(self).by_contract_id
                &&& final(self).owner_id == old(self).owner_id
            }),
    {
        let storage_account_id = match account_id {
            Some(a) => a,
            None => predecessor_id,
        };
        let mut balance: u128 = match self.storage_deposit.get(&storage_account_id) {
            Some(b) => *b,
            None => 0,
        };
        balance = balance + attached_deposit;
        self.storage_deposit.insert(storage_account_id, balance);
        proof {
            assert forall|o: Seq<char>, k: (Seq<char>, Seq<char>)| #[trigger]
                final(self).listed_by_owner(o, k) == old(self).listed_by_owner(o, k) by {}
            assert forall|c2: Seq<char>, t: Seq<char>| #[trigger]
                final(self).listed_by_contract(c2, t) == old(self).listed_by_contract(c2, t) by {}
        }
    }

    /// Release the caller's storage reservation beyond what their active
    /// sales require, keeping the required part reserved.
    pub fn storage_withdraw(
        &mut self,
        predecessor_id: AccountId,
        attached_deposit: u128,
    ) -> (r: Option<TransferAction>)
        requires
            old(self).inv(),
            attached_deposit == 1,
            old(self).sales_required_deposit(predecessor_id@) <= u128::MAX,
            old(self).storage_credit(predecessor_id@) >= old(self).sales_required_deposit(
                predecessor_id@,
            ),
        ensures
            final(self).inv(),
            ({
                let required = old(self).sales_required_deposit(predecessor_id@);
                let amount = old(self).storage_credit(predecessor_id@);
                &&& (if required > 0 {
                    final(self).storage_deposit@ == old(self).storage_deposit@.insert(
                        predecessor_id@,
                        required as u128,
                    )
                } else {
                    final(self).storage_deposit@ == old(self).storage_deposit@.remove(
                        predecessor_id@,
                    )
                })
                &&& (match r {
                    Some(a) => amount - required > 0 && a.amount == amount - required
                        && a.receiver_id@ == predecessor_id@,
                    None => amount == required,
                })
                &&& final(self).sales == old(self).sales
                &&& final(self).by_owner_id == old(self).by_owner_id
                &&& final(self).by_contract_id == old(self).by_contract_id
                &&& final(self).owner_id == old(self).owner_id
            }),
    {
        let amount: u128 = match self.storage_deposit.remove(&predecessor_id) {
            Some(b) => b,
            None => 0,
        };
        let len: u64 = match self.by_owner_id.get(&predecessor_id) {
            Some(sales) => sales.len() as u64,
            None => 0,
        };
        let storage_required = (len as u128) * STORAGE_PER_SALE;
        proof {
            assert(storage_required == old(self).sales_required_deposit(predecessor_id@));
        }
        let diff = amount - storage_required;
        if storage_required > 0 {
            self.storage_deposit.insert(predecessor_id.clone(), storage_required);
        }
        proof {
            assert forall|o: Seq<char>, k: (Seq<char>, Seq<char>)| #[trigger]
                final(self).listed_by_owner(o, k) == old(self).listed_by_owner(o, k) by {}
            assert forall|c2: Seq<char>, t: Seq<char>| #[trigger]
                final(self).listed_by_contract(c2, t) == old(self).listed_by_contract(c2, t) by {}
        }
        if diff > 0 {
            Some(TransferAction { receiver_id: predecessor_id, amount: diff })
        } else {
            None
        }
    }

    /// Native value an account has reserved for sale storage.
    pub open spec fn storage_credit(&self, a: Seq<char>) -> int {
        if self.storage_deposit@.contains_key(a) {
            self.storage_deposit@[a] as int
        } else {
            0
        }
    }

    /// Number of active sales an account has listed.
    pub open spec fn seller_listing_count(&self, a: Seq<char>) -> int {
        if self.by_owner_id@.contains_key(a) {
            self.by_owner_id@[a].size() as int
        } else {
            0
        }
    }

    /// Reservation the account's active sales require.
    pub open spec fn sales_required_deposit(&self, a: Seq<char>) -> int {
        (if self.by_owner_id@.contains_key(a) {
            self.by_owner_id@[a].size() as int
        } else {
            0
        }) * STORAGE_PER_SALE
    }

    /// The reservation one sale requires.
    pub fn storage_minimum_balance(&self) -> (r: u128)
        ensures
            r == STORAGE_PER_SALE,
    {
        STORAGE_PER_SALE
    }

    /// The reservation an account currently holds.
    pub fn storage_balance_of(&self, account_id: AccountId) -> (r: u128)
        requires
            self.inv(),
        ensures
            r == self.storage_credit(account_id@),
    {
        match self.storage_deposit.get(&account_id) {
            Some(b) => *b,
            None => 0,
        }
    }
}

} // verus!
