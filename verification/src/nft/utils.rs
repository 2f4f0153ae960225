//! Storage-cost bookkeeping and the royalty share formula.

use vstd::prelude::*;
use crate::AccountId;
use crate::actions::{StorageRefund, TransferAction};
use crate::errors::Error;
use crate::smap::StrMap;

verus! {

/// Storage bytes one approval entry occupies: the account id in its byte
/// encoding, a length prefix, and the approval sequence number.
pub open spec fn spec_account_bytes(a: Seq<char>) -> int {
    vstd::utf8::encode_utf8(a).len() + 12int
}

/// Storage bytes a whole approval table occupies.
pub open spec fn spec_refund_bytes(s: Seq<(String, u64)>) -> int
    decreases s.len(),
{
    if s.len() == 0 {
        0
    } else {
        spec_refund_bytes(s.drop_last()) + spec_account_bytes(s.last().0@)
    }
}

pub proof fn lemma_refund_bytes_nonneg(s: Seq<(String, u64)>)
    ensures
        spec_refund_bytes(s) >= 0,
    decreases s.len(),
{
    if s.len() > 0 {
        lemma_refund_bytes_nonneg(s.drop_last());
    }
}

pub proof fn lemma_refund_bytes_prefix(s: Seq<(String, u64)>, i: int)
    requires
        0 <= i <= s.len(),
    ensures
        spec_refund_bytes(s.subrange(0, i)) <= spec_refund_bytes(s),
    decreases s.len() - i,
{
    if i == s.len() {
        assert(s.subrange(0, i) =~= s);
    } else {
        lemma_refund_bytes_prefix(s, i + 1);
        assert(s.subrange(0, i + 1).drop_last() =~= s.subrange(0, i));
        assert(spec_refund_bytes(s.subrange(0, i + 1)) == spec_refund_bytes(s.subrange(0, i))
            + spec_account_bytes(s[i].0@));
    }
}

/// Storage bytes that one approved account id occupies.
pub fn bytes_for_approved_account_id(account_id: &AccountId) -> (n: u64)
    requires
        spec_account_bytes(account_id@) <= usize::MAX,
    ensures
        n == spec_account_bytes(account_id@),
{
    let l = account_id.as_str().len();
    (l as u64) + 4 + 8
}

/// Refund owed for the storage a released approval table occupied.
pub fn refund_approved_account_ids(
    sender_id: AccountId,
    approved_account_ids: &StrMap<u64>,
) -> (r: StorageRefund)
    requires
        spec_refund_bytes(approved_account_ids.kv_seq()) <= usize::MAX,
    ensures
        r.receiver_id@ == sender_id@,
        r.storage_bytes == spec_refund_bytes(approved_account_ids.kv_seq()),
{
    let entries = approved_account_ids.pairs();
    let ghost s = approved_account_ids.kv_seq();
    let n = entries.len();
    let mut total: u64 = 0;
    let mut i: usize = 0;
    while i < n
        invariant
            n == s.len(),
            entries@ == s,
            0 <= i <= n,
            total == spec_refund_bytes(s.subrange(0, i as int)),
            spec_refund_bytes(s) <= usize::MAX,
        decreases n - i,
    {
        proof {
            lemma_refund_bytes_prefix(s, i + 1);
            assert(s.subrange(0, i + 1).drop_last() =~= s.subrange(0, i as int));
            lemma_refund_bytes_nonneg(s.subrange(0, i as int));
        }
        let b = bytes_for_approved_account_id(&entries[i].0);
        total = total + b;
        i = i + 1;
    }
    proof {
        assert(s.subrange(0, n as int) =~= s);
    }
    StorageRefund { receiver_id: sender_id, storage_bytes: total }
}

/// Refund of the deposit that exceeds the cost of the storage a call
/// consumed; rejects a deposit that cannot cover that cost.
pub fn refund_deposit(
    storage_used: u64,
    attached_deposit: u128,
    storage_byte_cost: u128,
    receiver_id: AccountId,
) -> (r: Result<Option<TransferAction>, Error>)
    requires
        storage_used * storage_byte_cost <= u128::MAX,
    ensures
        match r {
            Ok(opt) => {
                &&& storage_used * storage_byte_cost <= attached_deposit
                &&& match opt {
                    Some(a) => attached_deposit - storage_used * storage_byte_cost > 1
                        && a.amount == attached_deposit - storage_used * storage_byte_cost
                        && a.receiver_id@ == receiver_id@,
                    None => attached_deposit - storage_used * storage_byte_cost <= 1,
                }
            },
            Err(e) => e == Error::InsufficientDeposit && storage_used * storage_byte_cost
                > attached_deposit,
        },
{
    let required_cost = (storage_used as u128) * storage_byte_cost;
    if required_cost > attached_deposit {
        return Err(Error::InsufficientDeposit);
    }
    let refund = attached_deposit - required_cost;
    if refund > 1 {
        Ok(Some(TransferAction { receiver_id, amount: refund }))
    } else {
        Ok(None)
    }
}

/// Share of a balance that a number of basis points names, rounded down.
pub fn royalty_to_payout(royalty_percentage: u32, amount_to_pay: u128) -> (r: u128)
    requires
        royalty_percentage * amount_to_pay <= u128::MAX,
    ensures
        r == royalty_percentage * amount_to_pay / 10000,
{
    (royalty_percentage as u128) * amount_to_pay / 10_000u128
}

} // verus!
