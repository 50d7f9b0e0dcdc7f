//! The authoritative per-token record and its well-formedness.
use vstd::prelude::*;

use crate::kvmap::{kv_map_of, kv_unique};
use crate::metadata::TokenMetadata;
use crate::tokenset::ts_unique;

verus! {

/// The most royalty entries a record may hold.
pub const MAX_ROYALTIES: usize = 6;

/// Authoritative per-asset structure: owner, transfer approvals, royalty
/// shares, and usage grants. One record per token id.
#[derive(Debug)]
pub struct Token {
    /// The current exclusive owner.
    pub owner_id: String,
    /// Accounts approved to transfer this token, each bound to the approval
    /// id it was issued.
    pub approved_account_ids: Vec<(String, u64)>,
    /// The next approval id to issue.
    pub next_approval_id: u64,
    /// Royalty shares, counted but never interpreted here.
    pub royalty: Vec<(String, u32)>,
    /// Accounts holding a non-transferable usage permission.
    pub users: Vec<String>,
}

/// The full view of one token, as returned by read accessors.
#[derive(Debug)]
pub struct JsonToken {
    pub token_id: String,
    pub owner_id: String,
    pub metadata: TokenMetadata,
    pub approved_account_ids: Vec<(String, u64)>,
    pub royalty: Vec<(String, u32)>,
    pub users: Vec<String>,
}

/// Structural soundness of one record: approval and royalty keys are
/// distinct, the owner holds no approval on its own token, the royalty map
/// fits its bound, and usage grants are duplicate-free.
///
/// A grant is refused for the current owner, but transfers carry the grant
/// set over while replacing the owner, so a past grantee may later become
/// the owner; the grant set is therefore not constrained against the owner
/// here.
pub open spec fn token_wf(t: Token) -> bool {
    &&& kv_unique(t.approved_account_ids@)
    &&& !kv_map_of(t.approved_account_ids@).contains_key(t.owner_id@)
    &&& kv_unique(t.royalty@)
    &&& t.royalty@.len() <= MAX_ROYALTIES
    &&& ts_unique(t.users@)
}

/// Two records carry the same content.
pub open spec fn token_match(a: Token, b: Token) -> bool {
    &&& a.owner_id@ == b.owner_id@
    &&& a.approved_account_ids@ == b.approved_account_ids@
    &&& a.next_approval_id == b.next_approval_id
    &&& a.royalty@ == b.royalty@
    &&& a.users@ == b.users@
}

/// Duplicate a list of keyed entries; the copy's content equals the
/// original's.
pub fn copy_pairs<V: Copy>(v: &Vec<(String, V)>) -> (r: Vec<(String, V)>)
    ensures
        r@ == v@,
{
    let mut r: Vec<(String, V)> = Vec::new();
    let mut i: usize = 0;
    while i < v.len()
        invariant
            i <= v@.len(),
            r@.len() == i,
            forall|j: int| 0 <= j < i ==> r@[j] == v@[j],
        decreases v@.len() - i,
    {
        r.push((v[i].0.clone(), v[i].1));
        i = i + 1;
    }
    proof {
        assert(r@ =~= v@);
    }
    r
}

/// Duplicate a list of strings; the copy's content equals the original's.
pub fn copy_strings(v: &Vec<String>) -> (r: Vec<String>)
    ensures
        r@ == v@,
{
    let mut r: Vec<String> = Vec::new();
    let mut i: usize = 0;
    while i < v.len()
        invariant
            i <= v@.len(),
            r@.len() == i,
            forall|j: int| 0 <= j < i ==> r@[j] == v@[j],
        decreases v@.len() - i,
    {
        r.push(v[i].clone());
        i = i + 1;
    }
    proof {
        assert(r@ =~= v@);
    }
    r
}

/// Duplicate a token record; the copy carries the same content.
pub fn copy_token(t: &Token) -> (r: Token)
    ensures
        r.owner_id == t.owner_id,
        r.approved_account_ids@ == t.approved_account_ids@,
        r.next_approval_id == t.next_approval_id,
        r.royalty@ == t.royalty@,
        r.users@ == t.users@,
        token_match(r, *t),
{
    Token {
        owner_id: t.owner_id.clone(),
        approved_account_ids: copy_pairs(&t.approved_account_ids),
        next_approval_id: t.next_approval_id,
        royalty: copy_pairs(&t.royalty),
        users: copy_strings(&t.users),
    }
}

} // verus!
