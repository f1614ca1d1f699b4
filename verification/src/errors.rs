use vstd::prelude::*;

verus! {

/// The error kinds an operation can reject with. Every operation either
/// applies in full or returns exactly one of these with no partial effect.
#[derive(Clone, Copy, Debug, PartialEq, Eq, Structural)]
pub enum ErrorCode {
    /// The caller is not the record's owning principal, or not the correct
    /// agent side of an intent.
    Unauthorized,
    /// The required capability bit is absent from the agent's permission mask.
    InsufficientPermissions,
    /// The intent's stored status is already terminal, so no further
    /// transition is accepted.
    InvalidStatusTransition,
    /// A record already exists at the address derived from the identifying
    /// keys (replay protection on creation).
    DuplicateRecord,
    /// The custody movement could not complete (missing account, mismatched
    /// mint, wrong authority, underfunded source, or overflowing destination).
    TransferFailed,
    /// No record exists at the address derived from the identifying keys.
    RecordNotFound,
    /// A bounded string field exceeds its fixed maximum length.
    StringTooLong,
}

} // verus!
