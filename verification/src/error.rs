//! The failure kinds shared by every operation.

use vstd::prelude::*;
use vstd::string::*;

verus! {

/// Why an operation was refused. A refused operation leaves the engine
/// exactly as it was.
#[derive(Clone, Copy, Debug, PartialEq, Eq, Structural)]
pub enum HtlcError {
    /// The identifier names no record in the relevant store.
    NotFound,
    /// The record was already claimed, completed or refunded.
    AlreadyFinalized,
    /// The deadline has been reached, so the secret can no longer be used.
    Expired,
    /// The deadline has not been reached, so the funds cannot be reclaimed.
    NotYetExpired,
    /// The hash of the revealed secret differs from the stored commitment.
    InvalidSecret,
    /// The caller is not the sender, receiver or owner the operation needs.
    Unauthorized,
    /// The amount is zero, exceeds what remains, or differs from what was attached.
    InvalidAmount,
    /// The commitment has the wrong length or form.
    InvalidCommitment,
    /// The recipient address on the foreign ledger is malformed.
    InvalidForeignAddress,
    /// The derived identifier is already in use.
    Conflict,
    /// A payout for the same identifier has been started and not finished.
    ConcurrentClaim,
}

impl HtlcError {
    /// The human-readable text of each failure kind.
    pub open spec fn text(self) -> Seq<char> {
        match self {
            HtlcError::NotFound => "record not found"@,
            HtlcError::AlreadyFinalized => "record already finalized"@,
            HtlcError::Expired => "deadline expired"@,
            HtlcError::NotYetExpired => "deadline not yet expired"@,
            HtlcError::InvalidSecret => "invalid secret"@,
            HtlcError::Unauthorized => "caller not authorized"@,
            HtlcError::InvalidAmount => "invalid amount"@,
            HtlcError::InvalidCommitment => "invalid commitment"@,
            HtlcError::InvalidForeignAddress => "invalid foreign address"@,
            HtlcError::Conflict => "identifier already exists"@,
            HtlcError::ConcurrentClaim => "claim already in progress"@,
        }
    }

    /// Renders the failure for the caller.
    pub fn message(&self) -> (s: String)
        ensures
            s@ == self.text(),
    {
        match self {
            HtlcError::NotFound => String::from_str("record not found"),
            HtlcError::AlreadyFinalized => String::from_str("record already finalized"),
            HtlcError::Expired => String::from_str("deadline expired"),
            HtlcError::NotYetExpired => String::from_str("deadline not yet expired"),
            HtlcError::InvalidSecret => String::from_str("invalid secret"),
            HtlcError::Unauthorized => String::from_str("caller not authorized"),
            HtlcError::InvalidAmount => String::from_str("invalid amount"),
            HtlcError::InvalidCommitment => String::from_str("invalid commitment"),
            HtlcError::InvalidForeignAddress => String::from_str("invalid foreign address"),
            HtlcError::Conflict => String::from_str("identifier already exists"),
            HtlcError::ConcurrentClaim => String::from_str("claim already in progress"),
        }
    }
}

} // verus!
