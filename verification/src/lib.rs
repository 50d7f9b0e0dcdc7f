//! A verified ownership ledger for uniquely identified digital assets
//! ("tokens"): an owner index, transfer and authorization rules, usage-rights
//! delegation, a mint protocol, storage-cost accounting, and structured
//! lifecycle events.
//!
//! The ledger is an explicit state value ([`Contract`]) threaded through every
//! operation; failures are explicit [`errors::ContractError`] values, and a
//! failed call leaves the state exactly as it found it.
use vstd::prelude::*;

pub mod errors;
pub mod event;
pub mod internal;
pub mod kvmap;
pub mod metadata;
pub mod mint;
pub mod storage;
pub mod token;
pub mod tokenset;

use crate::event::EventLog;
use crate::kvmap::{kv_map_of, kv_unique};
use crate::metadata::{NFTContractMetadata, TokenMetadata};
use crate::token::{token_wf, Token};
use crate::tokenset::{ts_set_of, ts_unique};

verus! {

/// A token identifier: an opaque string chosen by the minter.
pub type TokenId = String;

/// The whole ledger state: the four keyed collections plus the sequence of
/// emitted lifecycle events. Exclusively owned; every mutation goes through
/// the operations of this crate.
#[derive(Debug)]
pub struct Contract {
    /// The account that instantiated the ledger.
    pub owner_id: String,
    /// Owner index: account id to the set of token ids it owns. An entry
    /// exists exactly while that set is non-empty.
    pub tokens_per_owner: Vec<(String, Vec<String>)>,
    /// Token store: token id to its authoritative record.
    pub tokens_by_id: Vec<(String, Token)>,
    /// Metadata store: token id to its opaque payload.
    pub token_metadata_by_id: Vec<(String, TokenMetadata)>,
    /// The singleton collection-level metadata record.
    pub metadata: NFTContractMetadata,
    /// Lifecycle events, oldest first; appended after each commit.
    pub events: Vec<EventLog>,
}

impl Contract {
    /// The token store as a map.
    pub open spec fn tokens(self) -> Map<Seq<char>, Token> {
        kv_map_of(self.tokens_by_id@)
    }

    /// The metadata store as a map.
    pub open spec fn token_meta(self) -> Map<Seq<char>, TokenMetadata> {
        kv_map_of(self.token_metadata_by_id@)
    }

    /// The owner index as a map.
    pub open spec fn index_map(self) -> Map<Seq<char>, Vec<String>> {
        kv_map_of(self.tokens_per_owner@)
    }

    /// Whether account `a`'s index entry contains token `t`.
    pub open spec fn index_has(self, a: Seq<char>, t: Seq<char>) -> bool {
        self.index_map().contains_key(a) && ts_set_of(self.index_map()[a]@).contains(t)
    }

    /// Structural soundness of the owner index alone: distinct account keys,
    /// and every stored token set duplicate-free and non-empty (no empty set
    /// persists).
    pub open spec fn index_wf(self) -> bool {
        &&& kv_unique(self.tokens_per_owner@)
        &&& forall|a: Seq<char>| #[trigger]
            self.index_map().contains_key(a) ==> ts_unique(self.index_map()[a]@)
                && self.index_map()[a]@.len() > 0
    }

    /// The ledger invariant:
    /// - each store maps a key to at most one entry;
    /// - every stored record is well-formed;
    /// - a token has a metadata record exactly while it has a token record;
    /// - the owner index is exactly the inverse of the records' owner fields:
    ///   account `a`'s entry contains token `t` if and only if `t`'s record
    ///   names `a` as owner.
    pub open spec fn wf(self) -> bool {
        &&& self.index_wf()
        &&& kv_unique(self.tokens_by_id@)
        &&& kv_unique(self.token_metadata_by_id@)
        &&& forall|t: Seq<char>| #[trigger]
            self.tokens().contains_key(t) ==> token_wf(self.tokens()[t])
        &&& forall|t: Seq<char>|
            #[trigger] self.tokens().contains_key(t) <==> #[trigger] self.token_meta().contains_key(
                t,
            )
        &&& forall|a: Seq<char>, t: Seq<char>| #[trigger]
            self.index_has(a, t) <==> self.tokens().contains_key(t) && self.tokens()[t].owner_id@
                == a
    }

    /// Create an empty ledger owned by `owner_id`, carrying the supplied
    /// collection metadata.
    pub fn new(owner_id: String, token_metadata: NFTContractMetadata) -> (c: Contract)
        ensures
            c.wf(),
            c.owner_id == owner_id,
            c.metadata == token_metadata,
            c.tokens() == Map::<Seq<char>, Token>::empty(),
            c.token_meta() == Map::<Seq<char>, TokenMetadata>::empty(),
            c.index_map() == Map::<Seq<char>, Vec<String>>::empty(),
            c.events@ == Seq::<EventLog>::empty(),
    {
        let c = Contract {
            owner_id,
            tokens_per_owner: Vec::new(),
            tokens_by_id: Vec::new(),
            token_metadata_by_id: Vec::new(),
            metadata: token_metadata,
            events: Vec::new(),
        };
        proof {
            assert(c.tokens() =~= Map::<Seq<char>, Token>::empty());
            assert(c.token_meta() =~= Map::<Seq<char>, TokenMetadata>::empty());
            assert(c.index_map() =~= Map::<Seq<char>, Vec<String>>::empty());
        }
        c
    }

    /// Create an empty ledger with this collection's default metadata.
    pub fn new_default_metadata(owner_id: String) -> (c: Contract)
        ensures
            c.wf(),
            c.owner_id == owner_id,
            c.tokens() == Map::<Seq<char>, Token>::empty(),
            c.token_meta() == Map::<Seq<char>, TokenMetadata>::empty(),
            c.index_map() == Map::<Seq<char>, Vec<String>>::empty(),
            c.events@ == Seq::<EventLog>::empty(),
            c.metadata.spec@ == "sc-nft-0.0.1"@,
            c.metadata.name@ == "Smart Contract NFT"@,
            c.metadata.symbol@ == "SCNFT"@,
            c.metadata.icon is None,
            c.metadata.base_uri is None,
            c.metadata.reference is None,
            c.metadata.reference_hash is None,
    {
        Contract::new(
            owner_id,
            NFTContractMetadata {
                spec: String::from_str("sc-nft-0.0.1"),
                name: String::from_str("Smart Contract NFT"),
                symbol: String::from_str("SCNFT"),
                icon: None,
                base_uri: None,
                reference: None,
                reference_hash: None,
            },
        )
    }
}

/// Law: under the ledger invariant a token is indexed under exactly one
/// account — whichever two entries contain it coincide, and that account is
/// the record's owner.
pub proof fn lemma_token_indexed_once(c: Contract, a1: Seq<char>, a2: Seq<char>, t: Seq<char>)
    requires
        c.wf(),
        c.index_has(a1, t),
        c.index_has(a2, t),
    ensures
        a1 == a2,
        c.tokens().contains_key(t),
        a1 == c.tokens()[t].owner_id@,
{
    assert(c.index_has(a1, t) <==> (c.tokens().contains_key(t) && c.tokens()[t].owner_id@ == a1));
    assert(c.index_has(a2, t) <==> (c.tokens().contains_key(t) && c.tokens()[t].owner_id@ == a2));
}

/// Law: under the ledger invariant every stored token is indexed under its
/// owner's entry.
pub proof fn lemma_owner_indexed(c: Contract, t: Seq<char>)
    requires
        c.wf(),
        c.tokens().contains_key(t),
    ensures
        c.index_has(c.tokens()[t].owner_id@, t),
{
    assert(c.index_has(c.tokens()[t].owner_id@, t) <==> (c.tokens().contains_key(t)
        && c.tokens()[t].owner_id@ == c.tokens()[t].owner_id@));
}

} // verus!
