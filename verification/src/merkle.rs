//! Merkle leaf commitments and inclusion-proof folding.
//!
//! A leaf binds an (address, balance) pair as the keccak-256 hash of the
//! ASCII string `"0x<lowercase-hex address>:<decimal balance>"`; folding walks
//! the sibling path, picking operand order from the proof index's bits.

use vstd::prelude::*;

use crate::codec::{dec_bytes_of, encode_dec, encode_hex, hex_encoded};
use crate::keccak::{keccak256, keccak256_of};

verus! {

/// The ASCII bytes of the leaf string "0x<lowercase-hex address>:<decimal
/// balance>". This exact encoding — lowercase hex, decimal (not hex) balance —
/// is what the published tree committed to.
pub open spec fn leaf_bytes(addr: Seq<u8>, balance: u64) -> Seq<u8> {
    seq![48u8, 120u8] + hex_encoded(addr) + seq![58u8] + dec_bytes_of(balance as nat)
}

/// The leaf commitment: keccak-256 of the leaf string.
pub open spec fn spec_hash_leaf(addr: Seq<u8>, balance: u64) -> Seq<u8> {
    keccak256_of(leaf_bytes(addr, balance))
}

/// One fold step per sibling: bit i of the index (its low bit first) says
/// whether the running node is the left (bit 0) or right (bit 1) operand of
/// the 64-byte concatenation that is hashed next. Index bits past the 31st
/// read as 0.
pub open spec fn spec_fold(node: Seq<u8>, index: u32, siblings: Seq<Seq<u8>>) -> Seq<u8>
    decreases siblings.len(),
{
    if siblings.len() == 0 {
        node
    } else {
        let next = if index % 2 == 0 {
            keccak256_of(node + siblings[0])
        } else {
            keccak256_of(siblings[0] + node)
        };
        spec_fold(next, (index / 2) as u32, siblings.drop_first())
    }
}

/// The byte sequences of a list of 32-byte hashes.
pub open spec fn views_of(s: Seq<[u8; 32]>) -> Seq<Seq<u8>> {
    s.map_values(|a: [u8; 32]| a@)
}

fn concat_hashes(a: &[u8; 32], b: &[u8; 32]) -> (r: [u8; 64])
    ensures
        r@ == a@ + b@,
{
    let mut out: [u8; 64] = [0u8; 64];
    let mut i: usize = 0;
    while i < 32
        invariant
            i <= 32,
            forall|j: int| 0 <= j < i ==> out@[j] == a@[j],
        decreases 32 - i,
    {
        out[i] = a[i];
        i = i + 1;
    }
    let mut k: usize = 0;
    while k < 32
        invariant
            k <= 32,
            forall|j: int| 0 <= j < 32 ==> out@[j] == a@[j],
            forall|j: int| 0 <= j < k ==> out@[j + 32] == b@[j],
        decreases 32 - k,
    {
        out[32 + k] = b[k];
        k = k + 1;
    }
    assert(out@ =~= a@ + b@);
    out
}

/// Hash an (address, balance) pair into its leaf commitment.
pub fn hash_leaf(address: &[u8; 20], balance: u64) -> (r: [u8; 32])
    ensures
        r@ == spec_hash_leaf(address@, balance),
{
    let mut buf: Vec<u8> = Vec::new();
    buf.push(48);
    buf.push(120);
    let mut hx = encode_hex(address.as_slice());
    buf.append(&mut hx);
    buf.push(58);
    let mut dec = encode_dec(balance);
    buf.append(&mut dec);
    assert(buf@ =~= leaf_bytes(address@, balance));
    keccak256(buf.as_slice())
}

/// Fold a sibling path over a leaf commitment into the candidate root.
pub fn compute_inclusion_root(leaf: &[u8; 32], index: u32, siblings: &Vec<[u8; 32]>) -> (r: [u8;
    32])
    ensures
        r@ == spec_fold(leaf@, index, views_of(siblings@)),
{
    let mut root: [u8; 32] = *leaf;
    let mut idx: u32 = index;
    let mut i: usize = 0;
    assert(views_of(siblings@).skip(0) =~= views_of(siblings@));
    while i < siblings.len()
        invariant
            i <= siblings@.len(),
            spec_fold(leaf@, index, views_of(siblings@)) == spec_fold(
                root@,
                idx,
                views_of(siblings@).skip(i as int),
            ),
        decreases siblings@.len() - i,
    {
        let ghost rest = views_of(siblings@).skip(i as int);
        assert(rest[0] == siblings@[i as int]@);
        assert(rest.drop_first() =~= views_of(siblings@).skip(i + 1));
        let sib = &siblings[i];
        let next = if idx % 2 == 0 {
            keccak256(concat_hashes(&root, sib).as_slice())
        } else {
            keccak256(concat_hashes(sib, &root).as_slice())
        };
        root = next;
        idx = idx / 2;
        i = i + 1;
    }
    root
}

} // verus!
