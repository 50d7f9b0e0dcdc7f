use vstd::prelude::*;

verus! {

/// Why a ledger operation was rejected. Every failure is terminal for the
/// call: the operation leaves the ledger exactly as it found it.
#[derive(Clone, Copy, Debug, PartialEq, Eq, Structural)]
pub enum ContractError {
    /// The referenced token id is absent from the token store.
    NotFound,
    /// The caller is neither the owner nor an approved delegate.
    Unauthorized,
    /// The supplied approval id does not match the stored one for the caller.
    ApprovalMismatch,
    /// The target account is already the current owner.
    SelfTransfer,
    /// A mint collided with an existing token id.
    AlreadyExists,
    /// More royalty entries were supplied than the record may hold.
    TooManyRoyalties,
    /// The attached payment does not cover the required storage cost.
    InsufficientDeposit,
}

} // verus!
