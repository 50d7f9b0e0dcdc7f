//! Metadata payloads: opaque to the ledger core, stored and returned as
//! supplied, never interpreted beyond their structural role.
use vstd::prelude::*;

verus! {

/// Per-token metadata payload; created atomically with the token record.
#[derive(Debug, PartialEq, Eq)]
pub struct TokenMetadata {
    pub title: Option<String>,
    pub description: Option<String>,
    pub media: Option<String>,
    pub media_hash: Option<String>,
    pub copies: Option<u64>,
    pub issued_at: Option<u64>,
    pub expires_at: Option<u64>,
    pub starts_at: Option<u64>,
    pub updated_at: Option<u64>,
    pub extra: Option<String>,
    pub reference: Option<String>,
    pub reference_hash: Option<String>,
}

/// The singleton collection-level metadata record.
#[derive(Debug, PartialEq, Eq)]
pub struct NFTContractMetadata {
    pub spec: String,
    pub name: String,
    pub symbol: String,
    pub icon: Option<String>,
    pub base_uri: Option<String>,
    pub reference: Option<String>,
    pub reference_hash: Option<String>,
}

/// Duplicate an optional string; the copy equals the original.
pub fn copy_opt_string(o: &Option<String>) -> (r: Option<String>)
    ensures
        r == *o,
{
    match o {
        Some(s) => Some(s.clone()),
        None => None,
    }
}

/// Duplicate a metadata payload; the copy equals the original.
pub fn copy_metadata(m: &TokenMetadata) -> (r: TokenMetadata)
    ensures
        r == *m,
{
    TokenMetadata {
        title: copy_opt_string(&m.title),
        description: copy_opt_string(&m.description),
        media: copy_opt_string(&m.media),
        media_hash: copy_opt_string(&m.media_hash),
        copies: m.copies,
        issued_at: m.issued_at,
        expires_at: m.expires_at,
        starts_at: m.starts_at,
        updated_at: m.updated_at,
        extra: copy_opt_string(&m.extra),
        reference: copy_opt_string(&m.reference),
        reference_hash: copy_opt_string(&m.reference_hash),
    }
}

} // verus!
