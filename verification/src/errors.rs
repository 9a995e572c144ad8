//! Error tiers of a verification run: per-record failures are recoverable and
//! only exclude the record, while structural failures abort the whole run.

use vstd::prelude::*;

verus! {

/// A run-aborting condition: the batch itself is not well formed, so no
/// partial result is meaningful.
#[derive(Clone, Copy, Debug, PartialEq, Eq, Structural)]
pub enum FatalError {
    /// A public digest or root string is not well-formed 32-byte hexadecimal.
    MalformedHex,
    /// A record's inclusion proof holds an entry that is not a well-formed
    /// 32-byte hash.
    InvalidProofShape,
    /// The verified balances sum past what the running total can hold.
    TotalOverflow,
}

/// Why recovering a signer's address from one record failed; the batch goes
/// on and only that record is excluded.
#[derive(Clone, Copy, Debug, PartialEq, Eq, Structural)]
pub enum RecoverError {
    /// The signature hex does not decode to exactly 65 bytes, or its recovery
    /// byte is outside the 27/28 convention.
    InvalidSignatureEncoding,
    /// ECDSA public-key recovery has no solution for the decoded signature.
    SignatureRecoveryFailed,
}

} // verus!
