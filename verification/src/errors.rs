use vstd::prelude::*;

verus! {

/// Every way an escrow operation can fail.
///
/// The first six variants are the protocol's own checks; the last two are
/// transfer-layer failures reported by the currency ledger and passed through
/// unchanged.
#[derive(Clone, Copy, PartialEq, Eq, Structural, Debug)]
pub enum EscrowError {
    /// Empty recipient or secret handed to the commitment hasher.
    InvalidRequest,
    /// A deposit of zero value.
    InvalidValue,
    /// A deposit under a commitment that already holds a live escrow.
    DuplicateCommitment,
    /// A claim or withdrawal against a commitment with no live escrow.
    UnknownCommitment,
    /// The revealed (recipient, secret) pair does not reproduce the commitment.
    InvalidPuzzle,
    /// A withdrawal attempted by someone other than the recorded remitter.
    NotOwner,
    /// The source account's balance is below the requested amount.
    InsufficientFunds,
    /// Crediting the destination would overflow its balance.
    Overflow,
}

} // verus!
