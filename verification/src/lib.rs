//! Verified core of a token-ownership check: signer addresses are recovered
//! from ECDSA signatures over a fixed digest, bound to balances through
//! keccak-256 Merkle inclusion proofs, deduplicated, and their balances summed
//! and classified against a closed range.

pub mod aggregate;
pub mod codec;
pub mod errors;
pub mod keccak;
pub mod merkle;
pub mod message;
pub mod recover;

use vstd::prelude::*;

verus! {

/// Lower bound of the committed balance range.
pub const MIN_BALANCE: u64 = 70_000_000_000_000;

/// Upper bound of the committed balance range.
pub const MAX_BALANCE: u64 = 70_100_000_000_000;

} // verus!
