//! Paginated views over the token table.

use vstd::prelude::*;
use crate::AccountId;
use crate::smap::lemma_kv_map_index;
use super::Contract;
use super::metadata::{JsonToken, metadata_eqv};

verus! {

/// `jt` presents token `token_id` as the contract holds it.
pub open spec fn json_matches(c: Contract, jt: JsonToken, token_id: Seq<char>) -> bool {
    &&& c.has_token(token_id)
    &&& jt.token_id@ == token_id
    &&& jt.owner_id@ == c.tokens_by_id@[token_id].owner_id@
    &&& metadata_eqv(jt.metadata, c.token_metadata_by_id@[token_id])
    &&& jt.approved_account_ids@ == c.tokens_by_id@[token_id].approved_account_ids@
    &&& jt.royalty@ == c.tokens_by_id@[token_id].royalty@
}

/// Length of a page of `lim` entries starting at `start` in a table of `n`.
pub open spec fn page_len(n: int, start: int, lim: int) -> int {
    if start >= n {
        0
    } else if lim <= n - start {
        lim
    } else {
        n - start
    }
}

impl Contract {
    /// Number of tokens minted so far.
    pub fn nft_total_supply(&self) -> (r: u128)
        ensures
            r == self.token_metadata_by_id.kv_seq().len(),
    {
        self.token_metadata_by_id.len() as u128
    }

    /// Number of tokens `account_id` owns.
    pub fn nft_supply_for_owner(&self, account_id: AccountId) -> (r: u128)
        requires
            self.inv(),
        ensures
            r == (if self.tokens_per_owner@.contains_key(account_id@) {
                self.tokens_per_owner@[account_id@].size() as int
            } else {
                0int
            }),
    {
        match self.tokens_per_owner.get(&account_id) {
            Some(tokens) => tokens.len() as u128,
            None => 0,
        }
    }

    /// A page of all tokens, in table order.
    pub fn nft_tokens(&self, from_index: Option<u128>, limit: Option<u64>) -> (r: Vec<JsonToken>)
        requires
            self.inv(),
        ensures
            ({
                let kv = self.token_metadata_by_id.kv_seq();
                let start = (match from_index {
                    Some(x) => x,
                    None => 0,
                }) as int;
                let lim = (match limit {
                    Some(l) => l,
                    None => 0,
                }) as int;
                &&& r@.len() == page_len(kv.len() as int, start, lim)
                &&& forall|q: int|
                    0 <= q < r@.len() ==> json_matches(*self, r@[q], kv[start + q].0@)
            }),
    {
        let start: u128 = match from_index {
            Some(x) => x,
            None => 0,
        };
        let lim: u64 = match limit {
            Some(l) => l,
            None => 0,
        };
        let mut out: Vec<JsonToken> = Vec::new();
        let n = self.token_metadata_by_id.len();
        if start >= n as u128 {
            return out;
        }
        let s_us: usize = start as usize;
        let mut i: usize = s_us;
        while i < n && (out.len() as u64) < lim
            invariant
                self.inv(),
                n == self.token_metadata_by_id.kv_seq().len(),
                s_us < n,
                s_us <= i <= n,
                out@.len() == i - s_us,
                i - s_us <= lim,
                forall|q: int|
                    0 <= q < out@.len() ==> json_matches(
                        *self,
                        out@[q],
                        self.token_metadata_by_id.kv_seq()[s_us + q].0@,
                    ),
            decreases n - i,
        {
            let key = self.token_metadata_by_id.pairs()[i].0.clone();
            proof {
                lemma_kv_map_index(self.token_metadata_by_id.kv_seq(), i as int);
                assert(self.token_metadata_by_id@.dom().contains(key@));
                assert(self.has_token(key@));
            }
            let jt = self.nft_token(key).unwrap();
            out.push(jt);
            i = i + 1;
        }
        out
    }

    /// A page of the tokens `account_id` owns, in index order.
    pub fn nft_tokens_for_owner(
        &self,
        account_id: AccountId,
        from_index: Option<u128>,
        limit: Option<u64>,
    ) -> (r: Vec<JsonToken>)
        requires
            self.inv(),
        ensures
            ({
                let start = (match from_index {
                    Some(x) => x,
                    None => 0,
                }) as int;
                let lim = (match limit {
                    Some(l) => l,
                    None => 0,
                }) as int;
                if self.tokens_per_owner@.contains_key(account_id@) {
                    let elems = self.tokens_per_owner@[account_id@].elem_seq();
                    &&& r@.len() == page_len(elems.len() as int, start, lim)
                    &&& forall|q: int|
                        0 <= q < r@.len() ==> json_matches(*self, r@[q], elems[start + q].0@)
                } else {
                    r@.len() == 0
                }
            }),
    {
        let token_set = match self.tokens_per_owner.get(&account_id) {
            Some(s) => s,
            None => {
                return Vec::new();
            },
        };
        let start: u128 = match from_index {
            Some(x) => x,
            None => 0,
        };
        let lim: u64 = match limit {
            Some(l) => l,
            None => 0,
        };
        let mut out: Vec<JsonToken> = Vec::new();
        let n = token_set.len();
        if start >= n as u128 {
            return out;
        }
        let s_us: usize = start as usize;
        let mut i: usize = s_us;
        while i < n && (out.len() as u64) < lim
            invariant
                self.inv(),
                self.tokens_per_owner@.contains_key(account_id@),
                *token_set == self.tokens_per_owner@[account_id@],
                n == token_set.elem_seq().len(),
                s_us < n,
                s_us <= i <= n,
                out@.len() == i - s_us,
                i - s_us <= lim,
                forall|q: int|
                    0 <= q < out@.len() ==> json_matches(
                        *self,
                        out@[q],
                        token_set.elem_seq()[s_us + q].0@,
                    ),
            decreases n - i,
        {
            let key = token_set.elems()[i].0.clone();
            proof {
                lemma_kv_map_index(token_set.m.kv_seq(), i as int);
                assert(token_set@.contains(key@));
                assert(self.owned(account_id@, key@));
                assert(self.has_token(key@));
            }
            let jt = self.nft_token(key).unwrap();
            out.push(jt);
            i = i + 1;
        }
        out
    }
}

} // verus!
