//! Structured lifecycle events, appended after a mutation has been applied.
//!
//! Every successful mint or transfer appends exactly one record; observers of
//! the event sequence may assume the corresponding mutation is final.
use vstd::prelude::*;

verus! {

/// Payload of a mint notification.
#[derive(Debug, PartialEq, Eq)]
pub struct NftMintLog {
    pub owner_id: String,
    pub token_ids: Vec<String>,
    pub memo: Option<String>,
}

/// Payload of a transfer notification. `authorized_id` is present exactly
/// when the transfer was driven by an explicit approval id.
#[derive(Debug, PartialEq, Eq)]
pub struct NftTransferLog {
    pub authorized_id: Option<String>,
    pub old_owner_id: String,
    pub new_owner_id: String,
    pub token_ids: Vec<String>,
    pub memo: Option<String>,
}

/// The two payload kinds a lifecycle event may carry.
#[derive(Debug, PartialEq, Eq)]
pub enum EventLogVariant {
    NftMint(Vec<NftMintLog>),
    NftTransfer(Vec<NftTransferLog>),
}

/// One structured lifecycle record: fixed standard and version strings plus
/// one payload.
#[derive(Debug, PartialEq, Eq)]
pub struct EventLog {
    pub standard: String,
    pub version: String,
    pub event: EventLogVariant,
}

/// The view of an optional string.
pub open spec fn opt_view(o: Option<String>) -> Option<Seq<char>> {
    match o {
        Some(s) => Some(s@),
        None => None,
    }
}

/// `ev` is the one mint record for token `token` now owned by `owner`.
pub open spec fn is_mint_event(ev: EventLog, owner: Seq<char>, token: Seq<char>) -> bool {
    &&& ev.standard@ == "nep171"@
    &&& ev.version@ == "1.0.0"@
    &&& match ev.event {
        EventLogVariant::NftMint(logs) => {
            &&& logs@.len() == 1
            &&& logs@[0].owner_id@ == owner
            &&& logs@[0].token_ids@.len() == 1
            &&& logs@[0].token_ids@[0]@ == token
            &&& logs@[0].memo is None
        },
        EventLogVariant::NftTransfer(_) => false,
    }
}

/// `ev` is the one transfer record for token `token` moving from `old_owner`
/// to `new_owner`, with the given authorization tag and memo.
pub open spec fn is_transfer_event(
    ev: EventLog,
    authorized: Option<Seq<char>>,
    old_owner: Seq<char>,
    new_owner: Seq<char>,
    token: Seq<char>,
    memo: Option<Seq<char>>,
) -> bool {
    &&& ev.standard@ == "nep171"@
    &&& ev.version@ == "1.0.0"@
    &&& match ev.event {
        EventLogVariant::NftMint(_) => false,
        EventLogVariant::NftTransfer(logs) => {
            &&& logs@.len() == 1
            &&& opt_view(logs@[0].authorized_id) == authorized
            &&& logs@[0].old_owner_id@ == old_owner
            &&& logs@[0].new_owner_id@ == new_owner
            &&& logs@[0].token_ids@.len() == 1
            &&& logs@[0].token_ids@[0]@ == token
            &&& opt_view(logs@[0].memo) == memo
        },
    }
}

} // verus!
