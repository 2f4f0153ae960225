//! Token record and descriptive metadata.

use vstd::prelude::*;
use crate::smap::StrMap;

verus! {

#[derive(Debug)]
pub struct NFTContractMetadata {
    pub spec: String,
    pub name: String,
    pub symbol: String,
    pub icon: Option<String>,
    pub base_uri: Option<String>,
    pub reference: Option<String>,
    pub reference_hash: Option<Vec<u8>>,
}

#[derive(Debug, PartialEq, Eq)]
pub struct TokenMetadata {
    pub title: Option<String>,
    pub description: Option<String>,
    pub media: Option<String>,
    pub media_hash: Option<Vec<u8>>,
    pub copies: Option<u64>,
    pub issued_at: Option<u64>,
    pub expires_at: Option<u64>,
    pub starts_at: Option<u64>,
    pub updated_at: Option<u64>,
    pub extra: Option<String>,
    pub reference: Option<String>,
    pub reference_hash: Option<Vec<u8>>,
}

pub open spec fn opt_str_eqv(a: Option<String>, b: Option<String>) -> bool {
    match (a, b) {
        (Some(x), Some(y)) => x@ == y@,
        (None, None) => true,
        _ => false,
    }
}

pub open spec fn opt_bytes_eqv(a: Option<Vec<u8>>, b: Option<Vec<u8>>) -> bool {
    match (a, b) {
        (Some(x), Some(y)) => x@ == y@,
        (None, None) => true,
        _ => false,
    }
}

/// The two records carry the same metadata, compared through views.
pub open spec fn metadata_eqv(a: TokenMetadata, b: TokenMetadata) -> bool {
    &&& opt_str_eqv(a.title, b.title)
    &&& opt_str_eqv(a.description, b.description)
    &&& opt_str_eqv(a.media, b.media)
    &&& opt_bytes_eqv(a.media_hash, b.media_hash)
    &&& a.copies == b.copies
    &&& a.issued_at == b.issued_at
    &&& a.expires_at == b.expires_at
    &&& a.starts_at == b.starts_at
    &&& a.updated_at == b.updated_at
    &&& opt_str_eqv(a.extra, b.extra)
    &&& opt_str_eqv(a.reference, b.reference)
    &&& opt_bytes_eqv(a.reference_hash, b.reference_hash)
}

fn dup_opt_str(a: &Option<String>) -> (r: Option<String>)
    ensures
        opt_str_eqv(r, *a),
{
    match a {
        Some(s) => Some(s.clone()),
        None => None,
    }
}

fn dup_opt_bytes(a: &Option<Vec<u8>>) -> (r: Option<Vec<u8>>)
    ensures
        opt_bytes_eqv(r, *a),
{
    match a {
        Some(v) => {
            let mut out: Vec<u8> = Vec::new();
            let n = v.len();
            let mut i: usize = 0;
            while i < n
                invariant
                    n == v@.len(),
                    0 <= i <= n,
                    out@.len() == i,
                    forall|j: int| 0 <= j < i ==> out@[j] == v@[j],
                decreases n - i,
            {
                out.push(v[i]);
                i = i + 1;
            }
            proof {
                assert(out@ =~= v@);
            }
            Some(out)
        },
        None => None,
    }
}

impl TokenMetadata {
    /// A copy carrying the same metadata.
    pub fn duplicate(&self) -> (r: Self)
        ensures
            metadata_eqv(r, *self),
    {
        TokenMetadata {
            title: dup_opt_str(&self.title),
            description: dup_opt_str(&self.description),
            media: dup_opt_str(&self.media),
            media_hash: dup_opt_bytes(&self.media_hash),
            copies: self.copies,
            issued_at: self.issued_at,
            expires_at: self.expires_at,
            starts_at: self.starts_at,
            updated_at: self.updated_at,
            extra: dup_opt_str(&self.extra),
            reference: dup_opt_str(&self.reference),
            reference_hash: dup_opt_bytes(&self.reference_hash),
        }
    }
}

/// Total of the basis points in a royalty table.
pub open spec fn bps_sum(s: Seq<(String, u32)>) -> int
    decreases s.len(),
{
    if s.len() == 0 {
        0
    } else {
        bps_sum(s.drop_last()) + s.last().1
    }
}

/// A token: its owner, the approvals granted on it, the ever-increasing
/// approval counter, and its royalty table.
#[derive(Debug)]
pub struct Token {
    pub owner_id: String,
    pub approved_account_ids: StrMap<u64>,
    pub next_approval_id: u64,
    pub royalty: StrMap<u32>,
}

impl Token {
    pub open spec fn wf(&self) -> bool {
        &&& self.approved_account_ids.wf()
        &&& self.royalty.wf()
        &&& bps_sum(self.royalty.kv_seq()) < 10000
    }

    /// A copy carrying the same owner, approvals, counter and royalties.
    pub fn duplicate(&self) -> (r: Self)
        ensures
            r.owner_id@ == self.owner_id@,
            r.approved_account_ids@ == self.approved_account_ids@,
            r.approved_account_ids.kv_seq().len() == self.approved_account_ids.kv_seq().len(),
            forall|i: int|
                0 <= i < r.approved_account_ids.kv_seq().len()
                    ==> r.approved_account_ids.kv_seq()[i].0@
                        == self.approved_account_ids.kv_seq()[i].0@
                    && r.approved_account_ids.kv_seq()[i].1
                        == self.approved_account_ids.kv_seq()[i].1,
            r.next_approval_id == self.next_approval_id,
            r.royalty@ == self.royalty@,
            r.royalty.kv_seq().len() == self.royalty.kv_seq().len(),
            forall|i: int|
                0 <= i < r.royalty.kv_seq().len()
                    ==> r.royalty.kv_seq()[i].0@ == self.royalty.kv_seq()[i].0@
                    && r.royalty.kv_seq()[i].1 == self.royalty.kv_seq()[i].1,
            self.wf() ==> r.wf(),
    {
        let r = Token {
            owner_id: self.owner_id.clone(),
            approved_account_ids: self.approved_account_ids.duplicate(),
            next_approval_id: self.next_approval_id,
            royalty: self.royalty.duplicate(),
        };
        proof {
            if self.wf() {
                lemma_bps_sum_congruent(self.royalty.kv_seq(), r.royalty.kv_seq());
            }
        }
        r
    }
}

pub proof fn lemma_bps_sum_congruent(s: Seq<(String, u32)>, t: Seq<(String, u32)>)
    requires
        s.len() == t.len(),
        forall|i: int| 0 <= i < s.len() ==> s[i].0@ == t[i].0@ && s[i].1 == t[i].1,
    ensures
        bps_sum(s) == bps_sum(t),
    decreases s.len(),
{
    if s.len() > 0 {
        assert(forall|i: int|
            0 <= i < s.drop_last().len() ==> s.drop_last()[i].0@ == t.drop_last()[i].0@
                && s.drop_last()[i].1 == t.drop_last()[i].1);
        lemma_bps_sum_congruent(s.drop_last(), t.drop_last());
    }
}

/// A token as handed to callers: the record joined with its metadata.
#[derive(Debug)]
pub struct JsonToken {
    pub token_id: String,
    pub owner_id: String,
    pub metadata: TokenMetadata,
    pub approved_account_ids: StrMap<u64>,
    pub royalty: StrMap<u32>,
}

} // verus!
