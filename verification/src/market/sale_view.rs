//! Paginated views over the sale table and its indices.

use vstd::prelude::*;
use crate::AccountId;
use crate::smap::{lemma_kv_map_index, lemma_pkv_map_index};
use crate::nft::enumeration::page_len;
use super::{Contract, NFTContractId, Sale, sale_eqv};

verus! {

impl Contract {
    /// Number of active sales.
    pub fn get_supply_sales(&self) -> (r: u128)
        ensures
            r == self.sales.kv_seq().len(),
    {
        self.sales.len() as u128
    }

    /// Number of active sales `account_id` listed.
    pub fn get_supply_by_owner_id(&self, account_id: AccountId) -> (r: u128)
        requires
            self.inv(),
        ensures
            r == self.seller_listing_count(account_id@),
    {
        match self.by_owner_id.get(&account_id) {
            Some(sales) => sales.len() as u128,
            None => 0,
        }
    }

    /// Number of active sales for tokens of `contract_id`.
    pub fn get_suppy_by_contract_id(&self, contract_id: NFTContractId) -> (r: u128)
        requires
            self.inv(),
        ensures
            r == (if self.by_contract_id@.contains_key(contract_id@) {
                self.by_contract_id@[contract_id@].size() as int
            } else {
                0int
            }),
    {
        match self.by_contract_id.get(&contract_id) {
            Some(tokens) => tokens.len() as u128,
            None => 0,
        }
    }

    /// A page of all sales, in table order.
    pub fn get_sales(&self, from_index: Option<u128>, limit: Option<u64>) -> (r: Vec<Sale>)
        requires
            self.inv(),
        ensures
            ({
                let kv = self.sales.kv_seq();
                let start = (match from_index {
                    Some(x) => x,
                    None => 0,
                }) as int;
                let lim = (match limit {
                    Some(l) => l,
                    None => 0,
                }) as int;
                &&& r@.len() == page_len(kv.len() as int, start, lim)
                &&& forall|q: int| 0 <= q < r@.len() ==> sale_eqv(r@[q], kv[start + q].2)
            }),
    {
        let start: u128 = match from_index {
            Some(x) => x,
            None => 0,
        };
        let lim: u64 = match limit {
            Some(l) => l,
            None => 0,
        };
        let mut out: Vec<Sale> = Vec::new();
        let n = self.sales.len();
        if start >= n as u128 {
            return out;
        }
        let s_us: usize = start as usize;
        let mut i: usize = s_us;
        while i < n && (out.len() as u64) < lim
            invariant
                n == self.sales.kv_seq().len(),
                s_us < n,
                s_us <= i <= n,
                out@.len() == i - s_us,
                i - s_us <= lim,
                forall|q: int|
                    0 <= q < out@.len() ==> sale_eqv(out@[q], self.sales.kv_seq()[s_us + q].2),
            decreases n - i,
        {
            let sale = self.sales.pairs()[i].2.duplicate();
            out.push(sale);
            i = i + 1;
        }
        out
    }

    /// A page of the sales `account_id` listed, in index order.
    pub fn get_sales_by_owner_id(
        &self,
        account_id: AccountId,
        from_index: Option<u128>,
        limit: Option<u64>,
    ) -> (r: Vec<Sale>)
        requires
            self.inv(),
        ensures
            ({
                let start = (match from_index {
                    Some(x) => x,
                    None => 0,
                }) as int;
                let lim = (match limit {
                    Some(l) => l,
                    None => 0,
                }) as int;
                if self.by_owner_id@.contains_key(account_id@) {
                    let elems = self.by_owner_id@[account_id@].elem_seq();
                    &&& r@.len() == page_len(elems.len() as int, start, lim)
                    &&& forall|q: int|
                        0 <= q < r@.len() ==> sale_eqv(
                            r@[q],
                            self.sales@[(elems[start + q].0@, elems[start + q].1@)],
                        )
                } else {
                    r@.len() == 0
                }
            }),
    {
        let key_set = match self.by_owner_id.get(&account_id) {
            Some(s) => s,
            None => {
                return Vec::new();
            },
        };
        let start: u128 = match from_index {
            Some(x) => x,
            None => 0,
        };
        let lim: u64 = match limit {
            Some(l) => l,
            None => 0,
        };
        let mut out: Vec<Sale> = Vec::new();
        let n = key_set.len();
        if start >= n as u128 {
            return out;
        }
        let s_us: usize = start as usize;
        let mut i: usize = s_us;
        while i < n && (out.len() as u64) < lim
            invariant
                self.inv(),
                self.by_owner_id@.contains_key(account_id@),
                *key_set == self.by_owner_id@[account_id@],
                n == key_set.elem_seq().len(),
                s_us < n,
                s_us <= i <= n,
                out@.len() == i - s_us,
                i - s_us <= lim,
                forall|q: int|
                    0 <= q < out@.len() ==> sale_eqv(
                        out@[q],
                        self.sales@[
                            (key_set.elem_seq()[s_us + q].0@, key_set.elem_seq()[s_us + q].1@)
                        ],
                    ),
            decreases n - i,
        {
            let pair = &key_set.elems()[i];
            proof {
                lemma_pkv_map_index(key_set.m.kv_seq(), i as int);
                assert(key_set@.contains((pair.0@, pair.1@)));
                assert(self.listed_by_owner(account_id@, (pair.0@, pair.1@)));
                assert(self.has_sale((pair.0@, pair.1@)));
            }
            let sale = self.sales.get(&pair.0, &pair.1).unwrap().duplicate();
            out.push(sale);
            i = i + 1;
        }
        out
    }

    /// A page of the sales for tokens of `contract_id`, in index order.
    pub fn get_sales_by_contract_id(
        &self,
        contract_id: NFTContractId,
        from_index: Option<u128>,
        limit: Option<u64>,
    ) -> (r: Vec<Sale>)
        requires
            self.inv(),
        ensures
            ({
                let start = (match from_index {
                    Some(x) => x,
                    None => 0,
                }) as int;
                let lim = (match limit {
                    Some(l) => l,
                    None => 0,
                }) as int;
                if self.by_contract_id@.contains_key(contract_id@) {
                    let elems = self.by_contract_id@[contract_id@].elem_seq();
                    &&& r@.len() == page_len(elems.len() as int, start, lim)
                    &&& forall|q: int|
                        0 <= q < r@.len() ==> sale_eqv(
                            r@[q],
                            self.sales@[(contract_id@, elems[start + q].0@)],
                        )
                } else {
                    r@.len() == 0
                }
            }),
    {
        let token_set = match self.by_contract_id.get(&contract_id) {
            Some(s) => s,
            None => {
                return Vec::new();
            },
        };
        let start: u128 = match from_index {
            Some(x) => x,
            None => 0,
        };
        let lim: u64 = match limit {
            Some(l) => l,
            None => 0,
        };
        let mut out: Vec<Sale> = Vec::new();
        let n = token_set.len();
        if start >= n as u128 {
            return out;
        }
        let s_us: usize = start as usize;
        let mut i: usize = s_us;
        while i < n && (out.len() as u64) < lim
            invariant
                self.inv(),
                self.by_contract_id@.contains_key(contract_id@),
                *token_set == self.by_contract_id@[contract_id@],
                n == token_set.elem_seq().len(),
                s_us < n,
                s_us <= i <= n,
                out@.len() == i - s_us,
                i - s_us <= lim,
                forall|q: int|
                    0 <= q < out@.len() ==> sale_eqv(
                        out@[q],
                        self.sales@[(contract_id@, token_set.elem_seq()[s_us + q].0@)],
                    ),
            decreases n - i,
        {
            let token = &token_set.elems()[i].0;
            proof {
                lemma_kv_map_index(token_set.m.kv_seq(), i as int);
                assert(token_set@.contains(token@));
                assert(self.listed_by_contract(contract_id@, token@));
                assert(self.has_sale((contract_id@, token@)));
            }
            let sale = self.sales.get(&contract_id, token).unwrap().duplicate();
            out.push(sale);
            i = i + 1;
        }
        out
    }
}

} // verus!
