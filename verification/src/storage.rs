//! The deterministic size model used for storage-cost accounting.
//!
//! Every persisted value is measured in abstract storage units: one unit per
//! character of a stored string, plus a fixed width per integer field. The
//! price of one unit is injected by the caller; it is host configuration,
//! not defined here.
use vstd::prelude::*;

use crate::metadata::{NFTContractMetadata, TokenMetadata};
use crate::token::Token;
use crate::Contract;

verus! {

/// Units charged for one stored `u64` field.
pub const WIDTH_U64: u64 = 8;

/// Units charged for one stored `u32` field.
pub const WIDTH_U32: u64 = 4;

/// Units of one optional string field.
pub open spec fn opt_str_bytes(o: Option<String>) -> nat {
    match o {
        Some(s) => s@.len(),
        None => 0,
    }
}

/// Units of one optional integer field.
pub open spec fn opt_u64_bytes(o: Option<u64>) -> nat {
    match o {
        Some(_) => WIDTH_U64 as nat,
        None => 0,
    }
}

/// Units of a royalty entry list.
pub open spec fn royalty_bytes(s: Seq<(String, u32)>) -> nat
    decreases s.len(),
{
    if s.len() == 0 {
        0
    } else {
        (royalty_bytes(s.drop_last()) + s.last().0@.len() + WIDTH_U32) as nat
    }
}

/// Units of one metadata payload.
pub open spec fn metadata_bytes(m: TokenMetadata) -> nat {
    opt_str_bytes(m.title) + opt_str_bytes(m.description) + opt_str_bytes(m.media)
        + opt_str_bytes(m.media_hash) + opt_u64_bytes(m.copies) + opt_u64_bytes(m.issued_at)
        + opt_u64_bytes(m.expires_at) + opt_u64_bytes(m.starts_at) + opt_u64_bytes(m.updated_at)
        + opt_str_bytes(m.extra) + opt_str_bytes(m.reference) + opt_str_bytes(m.reference_hash)
}

/// The marginal units of granting one usage permission: the account id plus
/// one id slot.
pub open spec fn usage_bytes(user: Seq<char>) -> nat {
    (user.len() + WIDTH_U64) as nat
}

/// Units of an approval entry list.
pub open spec fn approvals_bytes(s: Seq<(String, u64)>) -> nat
    decreases s.len(),
{
    if s.len() == 0 {
        0
    } else {
        (approvals_bytes(s.drop_last()) + s.last().0@.len() + WIDTH_U64) as nat
    }
}

/// Units of a list of account or token ids.
pub open spec fn strings_bytes(s: Seq<String>) -> nat
    decreases s.len(),
{
    if s.len() == 0 {
        0
    } else {
        (strings_bytes(s.drop_last()) + s.last()@.len()) as nat
    }
}

/// Units of one stored token record.
pub open spec fn token_bytes(t: Token) -> nat {
    (t.owner_id@.len() + WIDTH_U64 + approvals_bytes(t.approved_account_ids@) + royalty_bytes(
        t.royalty@,
    ) + strings_bytes(t.users@)) as nat
}

/// Units of the token store.
pub open spec fn token_store_bytes(s: Seq<(String, Token)>) -> nat
    decreases s.len(),
{
    if s.len() == 0 {
        0
    } else {
        (token_store_bytes(s.drop_last()) + s.last().0@.len() + token_bytes(s.last().1)) as nat
    }
}

/// Units of the metadata store.
pub open spec fn meta_store_bytes(s: Seq<(String, TokenMetadata)>) -> nat
    decreases s.len(),
{
    if s.len() == 0 {
        0
    } else {
        (meta_store_bytes(s.drop_last()) + s.last().0@.len() + metadata_bytes(s.last().1)) as nat
    }
}

/// Units of one owner-index entry.
pub open spec fn index_entry_bytes(e: (String, Vec<String>)) -> nat {
    (e.0@.len() + strings_bytes(e.1@)) as nat
}

/// Units of the owner index.
pub open spec fn index_bytes(s: Seq<(String, Vec<String>)>) -> nat
    decreases s.len(),
{
    if s.len() == 0 {
        0
    } else {
        (index_bytes(s.drop_last()) + index_entry_bytes(s.last())) as nat
    }
}

/// Units of the singleton collection metadata record.
pub open spec fn contract_meta_bytes(m: NFTContractMetadata) -> nat {
    (m.spec@.len() + m.name@.len() + m.symbol@.len() + opt_str_bytes(m.icon) + opt_str_bytes(
        m.base_uri,
    ) + opt_str_bytes(m.reference) + opt_str_bytes(m.reference_hash)) as nat
}

/// The total persisted footprint of the ledger: the three keyed collections
/// plus the singleton record. Events are notifications for observers, not
/// persisted ledger state, so they carry no storage cost.
pub open spec fn contract_footprint(c: Contract) -> nat {
    (token_store_bytes(c.tokens_by_id@) + meta_store_bytes(c.token_metadata_by_id@) + index_bytes(
        c.tokens_per_owner@,
    ) + contract_meta_bytes(c.metadata)) as nat
}

/// Removing one entry from the owner index frees exactly its units.
pub proof fn lemma_index_bytes_remove(s: Seq<(String, Vec<String>)>, i: int)
    requires
        0 <= i < s.len(),
    ensures
        index_bytes(s) == index_bytes(s.remove(i)) + index_entry_bytes(s[i]),
    decreases s.len(),
{
    let t = s.remove(i);
    if i == s.len() - 1 {
        assert(t =~= s.drop_last());
    } else {
        assert(t.drop_last() =~= s.drop_last().remove(i));
        assert(t.last() == s.last());
        lemma_index_bytes_remove(s.drop_last(), i);
        assert(s.drop_last()[i] == s[i]);
    }
}

/// Measure a string in storage units.
pub fn str_units(s: &String) -> (r: u128)
    ensures
        r == s@.len(),
        r <= 0xFFFF_FFFF_FFFF_FFFFu128,
{
    s.as_str().unicode_len() as u128
}

/// Measure an optional string field.
pub fn opt_str_units(o: &Option<String>) -> (r: u128)
    ensures
        r == opt_str_bytes(*o),
        r <= 0xFFFF_FFFF_FFFF_FFFFu128,
{
    match o {
        Some(s) => str_units(s),
        None => 0,
    }
}

/// Measure an optional integer field.
pub fn opt_u64_units(o: &Option<u64>) -> (r: u128)
    ensures
        r == opt_u64_bytes(*o),
        r <= 8u128,
{
    match o {
        Some(_) => WIDTH_U64 as u128,
        None => 0,
    }
}

/// Measure a royalty entry list.
pub fn royalty_units(v: &Vec<(String, u32)>) -> (r: u128)
    requires
        v@.len() <= 6,
    ensures
        r == royalty_bytes(v@),
        r <= 0xC0000000000000000u128,
{
    let mut acc: u128 = 0;
    let mut i: usize = 0;
    while i < v.len()
        invariant
            i <= v@.len() <= 6,
            acc == royalty_bytes(v@.take(i as int)),
            acc <= i * 0x20000000000000000u128,
        decreases v@.len() - i,
    {
        let entry_units = str_units(&v[i].0);
        proof {
            let p = v@.take(i + 1);
            assert(p.drop_last() =~= v@.take(i as int));
            assert(p.last() == v@[i as int]);
        }
        acc = acc + entry_units + (WIDTH_U32 as u128);
        i = i + 1;
    }
    proof {
        assert(v@.take(v@.len() as int) =~= v@);
    }
    acc
}

/// Measure a metadata payload.
pub fn metadata_units(m: &TokenMetadata) -> (r: u128)
    ensures
        r == metadata_bytes(*m),
        r <= 0x80000000000000000u128,
{
    opt_str_units(&m.title) + opt_str_units(&m.description) + opt_str_units(&m.media)
        + opt_str_units(&m.media_hash) + opt_u64_units(&m.copies) + opt_u64_units(&m.issued_at)
        + opt_u64_units(&m.expires_at) + opt_u64_units(&m.starts_at) + opt_u64_units(&m.updated_at)
        + opt_str_units(&m.extra) + opt_str_units(&m.reference) + opt_str_units(&m.reference_hash)
}

/// The marginal storage units of adding one usage grant; computed for
/// accounting purposes. Usage grants themselves are deliberately free of
/// charge in this core, so callers that need cost-neutrality reconcile this
/// amount themselves.
pub fn usage_grant_bytes(user_id: &String) -> (r: u128)
    ensures
        r == usage_bytes(user_id@),
{
    str_units(user_id) + (WIDTH_U64 as u128)
}

} // verus!
