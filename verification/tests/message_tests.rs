use sha3::{Digest, Keccak256};
use token_ownership::message::compute_message_digest;

fn keccak(data: &[u8]) -> [u8; 32] {
    let mut hasher = Keccak256::new();
    hasher.update(data);
    let mut out = [0u8; 32];
    out.copy_from_slice(&hasher.finalize());
    out
}

#[test]
fn envelope_digest_matches_direct_keccak() {
    let message = b"hello world";
    let mut enveloped = Vec::new();
    enveloped.extend_from_slice(b"\x19Ethereum Signed Message:\n11");
    enveloped.extend_from_slice(message);
    assert_eq!(compute_message_digest(message), keccak(&enveloped));
}

#[test]
fn envelope_length_is_the_byte_count_in_decimal() {
    let message = [0x41u8; 123];
    let mut enveloped = Vec::new();
    enveloped.extend_from_slice(b"\x19Ethereum Signed Message:\n123");
    enveloped.extend_from_slice(&message);
    assert_eq!(compute_message_digest(&message), keccak(&enveloped));
}

#[test]
fn empty_message_digest() {
    assert_eq!(
        compute_message_digest(b""),
        keccak(b"\x19Ethereum Signed Message:\n0")
    );
}
