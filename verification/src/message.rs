//! Recomputing a message digest from a known plaintext: keccak-256 over the
//! signed-message envelope "\x19Ethereum Signed Message:\n<decimal byte
//! length>" followed by the message itself.

use vstd::prelude::*;

use crate::codec::{dec_bytes_of, encode_dec};
use crate::keccak::{keccak256, keccak256_of};

verus! {

/// The fixed envelope head: the byte 0x19 then the ASCII text
/// "Ethereum Signed Message:\n".
pub open spec fn envelope_head() -> Seq<u8> {
    seq![
        0x19u8,
        0x45u8,
        0x74u8,
        0x68u8,
        0x65u8,
        0x72u8,
        0x65u8,
        0x75u8,
        0x6du8,
        0x20u8,
        0x53u8,
        0x69u8,
        0x67u8,
        0x6eu8,
        0x65u8,
        0x64u8,
        0x20u8,
        0x4du8,
        0x65u8,
        0x73u8,
        0x73u8,
        0x61u8,
        0x67u8,
        0x65u8,
        0x3au8,
        0x0au8,
    ]
}

/// The digest a message's signers signed: keccak-256 of the envelope head,
/// the message's decimal byte length, and the message bytes.
pub open spec fn spec_message_digest(msg: Seq<u8>) -> Seq<u8> {
    keccak256_of(envelope_head() + dec_bytes_of(msg.len()) + msg)
}

/// Compute the 32-byte digest of a plain message under the signed-message
/// envelope.
pub fn compute_message_digest(message: &[u8]) -> (r: [u8; 32])
    ensures
        r@ == spec_message_digest(message@),
{
    let head: [u8; 26] = [
        0x19u8, 0x45u8, 0x74u8, 0x68u8, 0x65u8, 0x72u8, 0x65u8, 0x75u8, 0x6du8, 0x20u8, 0x53u8,
        0x69u8, 0x67u8, 0x6eu8, 0x65u8, 0x64u8, 0x20u8, 0x4du8, 0x65u8, 0x73u8, 0x73u8, 0x61u8,
        0x67u8, 0x65u8, 0x3au8, 0x0au8,
    ];
    let mut buf: Vec<u8> = Vec::new();
    buf.extend_from_slice(head.as_slice());
    assert(buf@ =~= envelope_head());
    let mut len_dec = encode_dec(message.len() as u64);
    buf.append(&mut len_dec);
    buf.extend_from_slice(message);
    assert(buf@ =~= envelope_head() + dec_bytes_of(message@.len()) + message@);
    keccak256(buf.as_slice())
}

} // verus!
