//! Keccak-256, the hash behind both leaf commitments and Merkle folding.

use sha3::Digest;
use vstd::prelude::*;

verus! {

/// The keccak-256 digest of a byte string; a function of the bytes alone.
pub uninterp spec fn keccak256_of(input: Seq<u8>) -> Seq<u8>;

/// Relies on sha3's Keccak256 (new, update, finalize): the 32-byte keccak-256
/// digest of the input, a function of the input bytes alone.
#[verifier::external_body]
pub(crate) fn keccak256(input: &[u8]) -> (r: [u8; 32])
    ensures
        r@ == keccak256_of(input@),
{
    let mut hasher = sha3::Keccak256::new();
    hasher.update(input);
    let digest = hasher.finalize();
    let mut out = [0u8; 32];
    out.copy_from_slice(&digest);
    out
}

} // verus!
