//! Signer-address recovery: a 65-byte recoverable ECDSA signature over a
//! known 32-byte digest yields the signer's public key, and the canonical
//! 20-byte address is the low 20 bytes of that key's keccak-256 hash.

use vstd::prelude::*;
use vstd::string::StringSliceAdditionalSpecFns;

use crate::codec::{decode_hex, hex_decoded, hex_ok, strip_hex_prefix};
use crate::errors::RecoverError;
use crate::keccak::{keccak256, keccak256_of};

verus! {

/// What ECDSA public-key recovery over secp256k1 yields for a 32-byte digest,
/// a 64-byte r||s pair and a 0/1 recovery identifier: the 64 content bytes of
/// the uncompressed public key, or nothing when recovery has no solution.
/// A function of its arguments alone.
pub uninterp spec fn ecdsa_recovered_key(digest: Seq<u8>, rs: Seq<u8>, rec_id: u8) -> Option<
    Seq<u8>,
>;

/// Relies on k256's ecdsa: RecoveryId::try_from, Signature::from_slice and
/// VerifyingKey::recover_from_prehash, each returning an error rather than a
/// key when recovery has no solution; the key is encoded uncompressed
/// (to_encoded_point) and its leading format byte dropped. Recovery is
/// deterministic in the digest, the r||s bytes and the recovery identifier.
#[verifier::external_body]
pub(crate) fn ecdsa_recover(digest: &[u8; 32], rs: &[u8; 64], rec_id: u8) -> (r: Option<[u8; 64]>)
    ensures
        r is Some <==> ecdsa_recovered_key(digest@, rs@, rec_id) is Some,
        r matches Some(k) ==> ecdsa_recovered_key(digest@, rs@, rec_id) == Some(k@),
{
    let recovery_id = k256::ecdsa::RecoveryId::try_from(rec_id).ok()?;
    let signature = k256::ecdsa::Signature::from_slice(&rs[..]).ok()?;
    let key = k256::ecdsa::VerifyingKey::recover_from_prehash(
        &digest[..],
        &signature,
        recovery_id,
    ).ok()?;
    let point = key.to_encoded_point(false);
    let mut out = [0u8; 64];
    out.copy_from_slice(&point.as_bytes()[1..65]);
    Some(out)
}

/// The address derived from an uncompressed public key's 64 content bytes:
/// the low 20 bytes of their keccak-256 hash.
pub open spec fn address_of_key(key: Seq<u8>) -> Seq<u8> {
    keccak256_of(key).subrange(12, 32)
}

/// What recovering a signer's address yields on a digest and the bytes of a
/// signature hex string: the string (after an optional "0x" marker) must
/// decode to exactly 65 bytes whose last byte is 27 or 28, and ECDSA recovery
/// on the rest must have a solution.
pub open spec fn spec_recover_address(digest: Seq<u8>, sig_hex: Seq<u8>) -> Result<
    Seq<u8>,
    RecoverError,
> {
    let stripped = strip_hex_prefix(sig_hex);
    if !(hex_ok(stripped) && stripped.len() == 130) {
        Err(RecoverError::InvalidSignatureEncoding)
    } else {
        let bytes = hex_decoded(stripped);
        if bytes[64] != 27 && bytes[64] != 28 {
            Err(RecoverError::InvalidSignatureEncoding)
        } else {
            match ecdsa_recovered_key(digest, bytes.take(64), (bytes[64] - 27) as u8) {
                Some(key) => Ok(address_of_key(key)),
                None => Err(RecoverError::SignatureRecoveryFailed),
            }
        }
    }
}

/// Recover the signer's canonical 20-byte address from a recoverable
/// signature hex string over the given digest.
pub fn recover_address(digest: &[u8; 32], signature: &str) -> (r: Result<[u8; 20], RecoverError>)
    ensures
        r matches Ok(a) ==> spec_recover_address(digest@, signature.spec_bytes()) == Ok::<
            Seq<u8>,
            RecoverError,
        >(a@),
        r matches Err(e) ==> spec_recover_address(digest@, signature.spec_bytes()) == Err::<
            Seq<u8>,
            RecoverError,
        >(e),
{
    let bytes = signature.as_bytes();
    let stripped: &[u8] = if bytes.len() >= 2 && bytes[0] == 48 && bytes[1] == 120 {
        let t = &bytes[2..bytes.len()];
        assert(t@ =~= strip_hex_prefix(bytes@));
        t
    } else {
        bytes
    };
    let sig_bytes = match decode_hex(stripped) {
        Some(v) => v,
        None => {
            return Err(RecoverError::InvalidSignatureEncoding);
        },
    };
    if sig_bytes.len() != 65 {
        return Err(RecoverError::InvalidSignatureEncoding);
    }
    let rec_byte = sig_bytes[64];
    if rec_byte != 27 && rec_byte != 28 {
        return Err(RecoverError::InvalidSignatureEncoding);
    }
    let mut rs: [u8; 64] = [0u8; 64];
    let mut i: usize = 0;
    while i < 64
        invariant
            i <= 64,
            sig_bytes@.len() == 65,
            forall|j: int| 0 <= j < i ==> rs@[j] == sig_bytes@[j],
        decreases 64 - i,
    {
        rs[i] = sig_bytes[i];
        i = i + 1;
    }
    assert(rs@ =~= hex_decoded(stripped@).take(64));
    let key = match ecdsa_recover(digest, &rs, rec_byte - 27) {
        Some(k) => k,
        None => {
            return Err(RecoverError::SignatureRecoveryFailed);
        },
    };
    let hash = keccak256(key.as_slice());
    let mut addr: [u8; 20] = [0u8; 20];
    let mut j: usize = 0;
    while j < 20
        invariant
            j <= 20,
            forall|k: int| 0 <= k < j ==> addr@[k] == hash@[k + 12],
        decreases 20 - j,
    {
        addr[j] = hash[j + 12];
        j = j + 1;
    }
    assert(addr@ =~= address_of_key(key@));
    Ok(addr)
}

} // verus!
