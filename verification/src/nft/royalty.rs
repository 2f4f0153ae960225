//! Royalty payout computation: splitting a sale balance among the royalty
//! accounts, the owner absorbing the rounding remainder.

use vstd::prelude::*;
use vstd::arithmetic::div_mod::{lemma_fundamental_div_mod, lemma_mod_bound};
use vstd::arithmetic::mul::{lemma_mul_inequality, lemma_mul_is_distributive_sub_other_way};
use crate::{AccountId, TokenId};
use crate::actions::StorageRefund;
use crate::errors::Error;
use crate::smap::StrMap;
use super::Contract;
use crate::events::opt_str_view;
use super::internal::transfer_error;
use super::internal::transferred;
use super::metadata::bps_sum;
use super::utils::{refund_approved_account_ids, royalty_to_payout, spec_refund_bytes};

verus! {

/// Per-account payout for a balance.
#[derive(Debug)]
pub struct Payout {
    pub payout: StrMap<u128>,
}

/// Basis points of the royalty entries whose account differs from the owner.
pub open spec fn used_bps(s: Seq<(String, u32)>, owner: Seq<char>) -> int
    decreases s.len(),
{
    if s.len() == 0 {
        0
    } else {
        used_bps(s.drop_last(), owner) + if s.last().0@ != owner {
            s.last().1 as int
        } else {
            0
        }
    }
}

/// The floored share of `balance` that `bps` basis points name.
pub open spec fn share(bps: int, balance: u128) -> int {
    bps * balance / 10000
}

/// Payout map for the non-owner royalty entries.
pub open spec fn royalty_shares(s: Seq<(String, u32)>, owner: Seq<char>, balance: u128) -> Map<
    Seq<char>,
    u128,
>
    decreases s.len(),
{
    if s.len() == 0 {
        Map::empty()
    } else {
        let m = royalty_shares(s.drop_last(), owner, balance);
        if s.last().0@ != owner {
            m.insert(s.last().0@, share(s.last().1 as int, balance) as u128)
        } else {
            m
        }
    }
}

/// The whole payout map: the non-owner shares, and the owner's share of the
/// remaining basis points.
pub open spec fn full_payout_map(s: Seq<(String, u32)>, owner: Seq<char>, balance: u128) -> Map<
    Seq<char>,
    u128,
> {
    royalty_shares(s, owner, balance).insert(
        owner,
        share(10000 - used_bps(s, owner), balance) as u128,
    )
}

/// Total of the non-owner shares.
pub open spec fn shares_total(s: Seq<(String, u32)>, owner: Seq<char>, balance: u128) -> int
    decreases s.len(),
{
    if s.len() == 0 {
        0
    } else {
        shares_total(s.drop_last(), owner, balance) + if s.last().0@ != owner {
            share(s.last().1 as int, balance)
        } else {
            0
        }
    }
}

/// Total of the fractional parts the non-owner shares lose to flooring,
/// scaled by ten thousand.
pub open spec fn shares_frac(s: Seq<(String, u32)>, owner: Seq<char>, balance: u128) -> int
    decreases s.len(),
{
    if s.len() == 0 {
        0
    } else {
        shares_frac(s.drop_last(), owner, balance) + if s.last().0@ != owner {
            (s.last().1 as int * balance) % 10000
        } else {
            0
        }
    }
}

/// Everything a payout pays out: the non-owner shares plus the owner share.
pub open spec fn payout_grand_total(s: Seq<(String, u32)>, owner: Seq<char>, balance: u128) -> int {
    shares_total(s, owner, balance) + share(10000 - used_bps(s, owner), balance)
}

/// Everything flooring loses across the whole payout, scaled by ten
/// thousand.
pub open spec fn payout_frac_total(s: Seq<(String, u32)>, owner: Seq<char>, balance: u128) -> int {
    shares_frac(s, owner, balance) + ((10000 - used_bps(s, owner)) * balance) % 10000
}

/// Total of the amounts in a payout table.
pub open spec fn payout_entry_total(s: Seq<(String, u128)>) -> int
    decreases s.len(),
{
    if s.len() == 0 {
        0
    } else {
        payout_entry_total(s.drop_last()) + s.last().1
    }
}

proof fn lemma_used_le_bps(s: Seq<(String, u32)>, owner: Seq<char>)
    ensures
        0 <= used_bps(s, owner) <= bps_sum(s),
    decreases s.len(),
{
    if s.len() > 0 {
        lemma_used_le_bps(s.drop_last(), owner);
    }
}

proof fn lemma_bps_prefix(s: Seq<(String, u32)>, i: int)
    requires
        0 <= i <= s.len(),
    ensures
        bps_sum(s.subrange(0, i)) <= bps_sum(s),
    decreases s.len() - i,
{
    if i == s.len() {
        assert(s.subrange(0, i) =~= s);
    } else {
        lemma_bps_prefix(s, i + 1);
        assert(s.subrange(0, i + 1).drop_last() =~= s.subrange(0, i));
    }
}

proof fn lemma_royalty_shares_contains(
    s: Seq<(String, u32)>,
    owner: Seq<char>,
    balance: u128,
    x: Seq<char>,
)
    ensures
        royalty_shares(s, owner, balance).contains_key(x) ==> x != owner && exists|j: int|
            0 <= j < s.len() && s[j].0@ == x,
    decreases s.len(),
{
    if s.len() > 0 {
        lemma_royalty_shares_contains(s.drop_last(), owner, balance, x);
        if royalty_shares(s, owner, balance).contains_key(x) {
            if s.last().0@ != owner && x == s.last().0@ {
                assert(s[s.len() - 1].0@ == x);
            } else {
                let j = choose|j: int|
                    0 <= j < s.drop_last().len() && s.drop_last()[j].0@ == x;
                assert(s[j].0@ == x);
            }
        }
    }
}

/// Flooring decomposition of the non-owner shares: scaled by ten thousand,
/// their total plus what flooring lost equals their basis points' exact
/// share of the balance.
proof fn lemma_shares_decompose(s: Seq<(String, u32)>, owner: Seq<char>, balance: u128)
    ensures
        10000 * shares_total(s, owner, balance) + shares_frac(s, owner, balance) == used_bps(
            s,
            owner,
        ) * balance,
    decreases s.len(),
{
    if s.len() > 0 {
        lemma_shares_decompose(s.drop_last(), owner, balance);
        if s.last().0@ != owner {
            let x = s.last().1 as int * balance;
            lemma_fundamental_div_mod(x, 10000);
            lemma_mul_is_distributive_sub_other_way(
                balance as int,
                used_bps(s, owner),
                used_bps(s.drop_last(), owner),
            );
        }
    }
}

/// A payout never pays out more than the balance, and what it loses to
/// flooring is exactly the scaled fractional losses of its shares.
pub proof fn lemma_payout_exact(s: Seq<(String, u32)>, owner: Seq<char>, balance: u128)
    ensures
        10000 * (balance - payout_grand_total(s, owner, balance)) == payout_frac_total(
            s,
            owner,
            balance,
        ),
{
    lemma_shares_decompose(s, owner, balance);
    let rest = 10000 - used_bps(s, owner);
    lemma_fundamental_div_mod(rest * balance, 10000);
    lemma_mul_is_distributive_sub_other_way(balance as int, 10000, used_bps(s, owner));
}

/// Every payout computation pays out at most the balance.
pub proof fn lemma_payout_within_balance(s: Seq<(String, u32)>, owner: Seq<char>, balance: u128)
    ensures
        payout_grand_total(s, owner, balance) <= balance,
{
    lemma_payout_exact(s, owner, balance);
    lemma_mod_bound(((10000 - used_bps(s, owner)) * balance) as int, 10000);
    lemma_shares_frac_nonneg(s, owner, balance);
}

proof fn lemma_shares_frac_nonneg(s: Seq<(String, u32)>, owner: Seq<char>, balance: u128)
    ensures
        shares_frac(s, owner, balance) >= 0,
    decreases s.len(),
{
    if s.len() > 0 {
        lemma_shares_frac_nonneg(s.drop_last(), owner, balance);
        if s.last().0@ != owner {
            lemma_mod_bound((s.last().1 as int * balance) as int, 10000);
        }
    }
}

/// When the scaled fractional losses stay under twice the scale, the payout
/// falls short of the balance by less than two units. The bound does not
/// hold of every royalty table: three or more entries can each lose almost
/// one unit to flooring.
pub proof fn lemma_payout_shortfall_small(s: Seq<(String, u32)>, owner: Seq<char>, balance: u128)
    requires
        payout_frac_total(s, owner, balance) < 20000,
    ensures
        balance - payout_grand_total(s, owner, balance) < 2,
{
    lemma_payout_exact(s, owner, balance);
}

/// Build the payout for `balance` from a royalty table and its owner,
/// refusing tables larger than `max_len_payout`.
fn compute_payout(
    royalty: &StrMap<u32>,
    owner_id: &AccountId,
    balance: u128,
    max_len_payout: u32,
) -> (r: Result<Payout, Error>)
    requires
        royalty.wf(),
        bps_sum(royalty.kv_seq()) < 10000,
        royalty.kv_seq().len() <= max_len_payout ==> balance <= u128::MAX / 10000,
    ensures
        match r {
            Ok(p) => {
                &&& royalty.kv_seq().len() <= max_len_payout
                &&& p.payout.wf()
                &&& p.payout@ == full_payout_map(royalty.kv_seq(), owner_id@, balance)
                &&& payout_entry_total(p.payout.kv_seq()) == payout_grand_total(
                    royalty.kv_seq(),
                    owner_id@,
                    balance,
                )
                &&& 1 <= p.payout.kv_seq().len() <= royalty.kv_seq().len() + 1
            },
            Err(e) => e == Error::TooManyPayees && royalty.kv_seq().len() > max_len_payout,
        },
{
    let n = royalty.len();
    if n > max_len_payout as usize {
        return Err(Error::TooManyPayees);
    }
    let ghost s = royalty.kv_seq();
    proof {
        lemma_fundamental_div_mod(u128::MAX as int, 10000);
        lemma_mod_bound(u128::MAX as int, 10000);
        lemma_mul_inequality(balance as int, (u128::MAX / 10000) as int, 10000);
    }
    let entries = royalty.pairs();
    let mut payout_map: StrMap<u128> = StrMap::new();
    let mut total_perpetual: u32 = 0;
    let mut i: usize = 0;
    while i < n
        invariant
            n == s.len(),
            entries@ == s,
            royalty.wf(),
            s == royalty.kv_seq(),
            bps_sum(s) < 10000,
            balance <= u128::MAX / 10000,
            10000 * balance <= u128::MAX,
            0 <= i <= n,
            payout_map.wf(),
            payout_map@ == royalty_shares(s.subrange(0, i as int), owner_id@, balance),
            payout_entry_total(payout_map.kv_seq()) == shares_total(
                s.subrange(0, i as int),
                owner_id@,
                balance,
            ),
            total_perpetual == used_bps(s.subrange(0, i as int), owner_id@),
            payout_map.kv_seq().len() <= i,
            forall|x: Seq<char>| #[trigger]
                payout_map@.contains_key(x) ==> x != owner_id@ && exists|j: int|
                    0 <= j < s.len() && s[j].0@ == x,
        decreases n - i,
    {
        let ghost prefix = s.subrange(0, i as int);
        proof {
            assert(s.subrange(0, i + 1).drop_last() =~= prefix);
            assert(s.subrange(0, i + 1).last() == s[i as int]);
            lemma_used_le_bps(s.subrange(0, i + 1), owner_id@);
            lemma_bps_prefix(s, i + 1);
        }
        let k = &entries[i].0;
        let v = entries[i].1;
        if !(*k == *owner_id) {
            proof {
                assert(used_bps(s.subrange(0, i + 1), owner_id@) == total_perpetual + v);
                assert(v <= 10000);
                lemma_mul_inequality(v as int, 10000, balance as int);
                lemma_royalty_shares_contains(prefix, owner_id@, balance, k@);
                assert(!payout_map@.contains_key(k@)) by {
                    if payout_map@.contains_key(k@) {
                        let j = choose|j: int| 0 <= j < prefix.len() && prefix[j].0@ == k@;
                        assert(s[j].0@ == s[i as int].0@);
                    }
                }
                assert(0 <= v as int * balance <= u128::MAX);
                lemma_mod_bound((v as int * balance) as int, 10000);
                lemma_fundamental_div_mod((v as int * balance) as int, 10000);
            }
            let ghost before = payout_map.kv_seq();
            let amount = royalty_to_payout(v, balance);
            payout_map.insert(k.clone(), amount);
            total_perpetual = total_perpetual + v;
            proof {
                assert(payout_map.kv_seq().drop_last() =~= before);
                assert(payout_entry_total(payout_map.kv_seq()) == payout_entry_total(before)
                    + amount);
            }
        }
        i = i + 1;
    }
    proof {
        assert(s.subrange(0, n as int) =~= s);
        lemma_used_le_bps(s, owner_id@);
    }
    let rest = 10000 - total_perpetual;
    proof {
        lemma_mul_inequality(rest as int, 10000, balance as int);
        assert(0 <= rest as int * balance <= u128::MAX);
        lemma_mod_bound((rest as int * balance) as int, 10000);
        lemma_fundamental_div_mod((rest as int * balance) as int, 10000);
        lemma_royalty_shares_contains(s, owner_id@, balance, owner_id@);
        assert(!payout_map@.contains_key(owner_id@));
    }
    let ghost before_owner = payout_map.kv_seq();
    let owner_amount = royalty_to_payout(rest, balance);
    payout_map.insert(owner_id.clone(), owner_amount);
    proof {
        assert(payout_map.kv_seq().drop_last() =~= before_owner);
        assert(payout_entry_total(payout_map.kv_seq()) == payout_entry_total(before_owner)
            + owner_amount);
        assert(payout_map@ =~= full_payout_map(s, owner_id@, balance));
    }
    Ok(Payout { payout: payout_map })
}

pub trait NonFungibleTokenCore {
    /// The token ledger this interface operates on.
    spec fn state(&self) -> Contract;

    /// The payout that selling `token_id` for `balance` owes each account,
    /// capped at `max_len_payout` royalty entries.
    fn nft_payout(&self, token_id: TokenId, balance: u128, max_len_payout: u32) -> (r: Result<
        Payout,
        Error,
    >)
        requires
            self.state().inv(),
            self.state().has_token(token_id@) && self.state().tokens_by_id@[token_id@].royalty.kv_seq().len()
                <= max_len_payout ==> balance <= u128::MAX / 10000,
        ensures
            match r {
                Ok(p) => {
                    let t = self.state().tokens_by_id@[token_id@];
                    &&& self.state().has_token(token_id@)
                    &&& t.royalty.kv_seq().len() <= max_len_payout
                    &&& p.payout.wf()
                    &&& p.payout@ == full_payout_map(t.royalty.kv_seq(), t.owner_id@, balance)
                    &&& payout_entry_total(p.payout.kv_seq()) == payout_grand_total(
                        t.royalty.kv_seq(),
                        t.owner_id@,
                        balance,
                    )
                },
                Err(e) => {
                    if !self.state().has_token(token_id@) {
                        e == Error::TokenNotFound
                    } else {
                        e == Error::TooManyPayees
                            && self.state().tokens_by_id@[token_id@].royalty.kv_seq().len()
                            > max_len_payout
                    }
                },
            },
    ;

    /// Transfer `token_id` to `receiver_id` and return the payout that
    /// selling it for `balance` owes, computed from the pre-transfer owner
    /// and royalties, together with the storage refund for the cleared
    /// approvals, owed to the previous owner.
    fn nft_transfer_payout(
        &mut self,
        receiver_id: AccountId,
        token_id: TokenId,
        approval_id: u64,
        memo: String,
        balance: u128,
        max_len_payout: u32,
        sender_id: AccountId,
        attached_deposit: u128,
    ) -> (r: Result<(Payout, StorageRefund), Error>)
        requires
            old(self).state().inv(),
            attached_deposit == 1,
            (transfer_error(
                old(self).state(),
                sender_id@,
                receiver_id@,
                token_id@,
                Some(approval_id),
            ) is None && old(self).state().tokens_by_id@[token_id@].royalty.kv_seq().len()
                <= max_len_payout) ==> balance <= u128::MAX / 10000,
            old(self).state().has_token(token_id@) ==> spec_refund_bytes(
                old(self).state().tokens_by_id@[token_id@].approved_account_ids.kv_seq(),
            ) <= usize::MAX,
        ensures
            final(self).state().inv(),
            match r {
                Ok(out) => {
                    let t0 = old(self).state().tokens_by_id@[token_id@];
                    &&& transfer_error(
                        old(self).state(),
                        sender_id@,
                        receiver_id@,
                        token_id@,
                        Some(approval_id),
                    ) is None
                    &&& t0.royalty.kv_seq().len() <= max_len_payout
                    &&& transferred(
                        old(self).state(),
                        final(self).state(),
                        receiver_id@,
                        token_id@,
                        Some(sender_id@),
                        Some(memo@),
                    )
                    &&& out.0.payout.wf()
                    &&& out.0.payout@ == full_payout_map(t0.royalty.kv_seq(), t0.owner_id@, balance)
                    &&& payout_entry_total(out.0.payout.kv_seq()) == payout_grand_total(
                        t0.royalty.kv_seq(),
                        t0.owner_id@,
                        balance,
                    )
                    &&& out.1.receiver_id@ == t0.owner_id@
                    &&& out.1.storage_bytes == spec_refund_bytes(t0.approved_account_ids.kv_seq())
                },
                Err(e) => {
                    &&& final(self).state() == old(self).state()
                    &&& (match transfer_error(
                        old(self).state(),
                        sender_id@,
                        receiver_id@,
                        token_id@,
                        Some(approval_id),
                    ) {
                        Some(te) => e == te,
                        None => e == Error::TooManyPayees && old(
                            self,
                        ).state().tokens_by_id@[token_id@].royalty.kv_seq().len() > max_len_payout,
                    })
                },
            },
    ;
}

impl NonFungibleTokenCore for Contract {
    open spec fn state(&self) -> Contract {
        *self
    }

    fn nft_payout(&self, token_id: TokenId, balance: u128, max_len_payout: u32) -> (r: Result<
        Payout,
        Error,
    >) {
        let token = match self.tokens_by_id.get(&token_id) {
            Some(t) => t,
            None => {
                return Err(Error::TokenNotFound);
            },
        };
        compute_payout(&token.royalty, &token.owner_id, balance, max_len_payout)
    }

    fn nft_transfer_payout(
        &mut self,
        receiver_id: AccountId,
        token_id: TokenId,
        approval_id: u64,
        memo: String,
        balance: u128,
        max_len_payout: u32,
        sender_id: AccountId,
        attached_deposit: u128,
    ) -> (r: Result<(Payout, StorageRefund), Error>) {
        match self.tokens_by_id.get(&token_id) {
            None => {
                return Err(Error::TokenNotFound);
            },
            Some(token_ref) => {
                if !(sender_id == token_ref.owner_id) {
                    if !token_ref.approved_account_ids.contains_key(&sender_id) {
                        return Err(Error::NotOwner);
                    }
                    let actual = token_ref.approved_account_ids.get(&sender_id).unwrap();
                    if !(*actual == approval_id) {
                        return Err(Error::StaleApproval);
                    }
                }
                if receiver_id == token_ref.owner_id {
                    return Err(Error::SelfTransfer);
                }
                if token_ref.royalty.len() > max_len_payout as usize {
                    return Err(Error::TooManyPayees);
                }
            },
        }
        let previous_token = match self.internal_transfer(
            &sender_id,
            &receiver_id,
            &token_id,
            Some(approval_id),
            Some(memo),
        ) {
            Ok(t) => t,
            Err(e) => {
                proof {
                    assert(false);
                }
                return Err(e);
            },
        };
        let refund = refund_approved_account_ids(
            previous_token.owner_id.clone(),
            &previous_token.approved_account_ids,
        );
        let payout = match compute_payout(
            &previous_token.royalty,
            &previous_token.owner_id,
            balance,
            max_len_payout,
        ) {
            Ok(p) => p,
            Err(e) => {
                proof {
                    assert(false);
                }
                return Err(e);
            },
        };
        Ok((payout, refund))
    }
}

} // verus!
