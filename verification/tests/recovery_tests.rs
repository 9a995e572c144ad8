use k256::ecdsa::SigningKey;
use sha3::{Digest, Keccak256};
use token_ownership::errors::RecoverError;
use token_ownership::recover::recover_address;

fn keccak(data: &[u8]) -> [u8; 32] {
    let mut hasher = Keccak256::new();
    hasher.update(data);
    let mut out = [0u8; 32];
    out.copy_from_slice(&hasher.finalize());
    out
}

fn to_hex(bytes: &[u8]) -> String {
    let mut s = String::new();
    for b in bytes {
        s.push(char::from_digit((b >> 4) as u32, 16).unwrap());
        s.push(char::from_digit((b & 0x0f) as u32, 16).unwrap());
    }
    s
}

fn signing_key(seed: u8) -> SigningKey {
    let mut key_bytes = [0u8; 32];
    key_bytes[31] = seed;
    SigningKey::from_slice(&key_bytes).unwrap()
}

fn address_of(key: &SigningKey) -> [u8; 20] {
    let point = key.verifying_key().to_encoded_point(false);
    let hash = keccak(&point.as_bytes()[1..]);
    let mut addr = [0u8; 20];
    addr.copy_from_slice(&hash[12..]);
    addr
}

fn sign_hex(key: &SigningKey, digest: &[u8; 32]) -> String {
    let (sig, recid) = key.sign_prehash_recoverable(digest).unwrap();
    let mut bytes = sig.to_bytes().to_vec();
    bytes.push(recid.to_byte() + 27);
    format!("0x{}", to_hex(&bytes))
}

#[test]
fn recovers_the_signers_address() {
    let digest = keccak(b"a message digest");
    let key = signing_key(7);
    let signature = sign_hex(&key, &digest);
    assert_eq!(recover_address(&digest, &signature), Ok(address_of(&key)));
}

#[test]
fn different_keys_recover_to_different_addresses() {
    let digest = keccak(b"another digest");
    let k1 = signing_key(1);
    let k2 = signing_key(2);
    let a1 = recover_address(&digest, &sign_hex(&k1, &digest)).unwrap();
    let a2 = recover_address(&digest, &sign_hex(&k2, &digest)).unwrap();
    assert_ne!(a1, a2);
    assert_eq!(a1, address_of(&k1));
    assert_eq!(a2, address_of(&k2));
}

#[test]
fn rejects_wrong_length_signature() {
    let digest = keccak(b"digest");
    assert_eq!(
        recover_address(&digest, "0x1234"),
        Err(RecoverError::InvalidSignatureEncoding)
    );
}

#[test]
fn rejects_non_hex_signature() {
    let digest = keccak(b"digest");
    let garbled = format!("0x{}zz", "00".repeat(64));
    assert_eq!(
        recover_address(&digest, &garbled),
        Err(RecoverError::InvalidSignatureEncoding)
    );
}

#[test]
fn rejects_recovery_byte_outside_convention() {
    let digest = keccak(b"digest");
    let key = signing_key(3);
    let (sig, _) = key.sign_prehash_recoverable(&digest).unwrap();
    let mut bytes = sig.to_bytes().to_vec();
    bytes.push(5);
    let signature = format!("0x{}", to_hex(&bytes));
    assert_eq!(
        recover_address(&digest, &signature),
        Err(RecoverError::InvalidSignatureEncoding)
    );
}

#[test]
fn fails_recovery_on_invalid_curve_data() {
    let digest = keccak(b"digest");
    // r = 0 is never a valid signature scalar, so recovery has no solution.
    let mut bytes = vec![0u8; 64];
    bytes[63] = 1;
    bytes.push(27);
    let signature = format!("0x{}", to_hex(&bytes));
    assert_eq!(
        recover_address(&digest, &signature),
        Err(RecoverError::SignatureRecoveryFailed)
    );
}
