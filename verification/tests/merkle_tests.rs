use sha3::{Digest, Keccak256};
use token_ownership::merkle::{compute_inclusion_root, hash_leaf};

fn keccak(data: &[u8]) -> [u8; 32] {
    let mut hasher = Keccak256::new();
    hasher.update(data);
    let mut out = [0u8; 32];
    out.copy_from_slice(&hasher.finalize());
    out
}

fn keccak_pair(left: &[u8; 32], right: &[u8; 32]) -> [u8; 32] {
    let mut buf = [0u8; 64];
    buf[..32].copy_from_slice(left);
    buf[32..].copy_from_slice(right);
    keccak(&buf)
}

#[test]
fn leaf_matches_keccak_of_exact_ascii_encoding() {
    let address: [u8; 20] = [
        0x12, 0x34, 0x56, 0x78, 0x9a, 0xbc, 0xde, 0xf0, 0x0f, 0xed, 0xcb, 0xa9, 0x87, 0x65, 0x43,
        0x21, 0xa0, 0xb1, 0xc2, 0xd3,
    ];
    let balance: u64 = 1234567890;
    let expected = keccak(b"0x123456789abcdef00fedcba987654321a0b1c2d3:1234567890");
    assert_eq!(hash_leaf(&address, balance), expected);
}

#[test]
fn leaf_uses_lowercase_hex_and_decimal_balance() {
    let address: [u8; 20] = [0xab; 20];
    let expected = keccak(b"0xabababababababababababababababababababab:0");
    assert_eq!(hash_leaf(&address, 0), expected);
    let not_decimal = keccak(b"0xabababababababababababababababababababab:0x0");
    assert_ne!(hash_leaf(&address, 0), not_decimal);
}

#[test]
fn fold_two_level_tree_both_orderings() {
    let leaf_a = keccak(b"a");
    let leaf_b = keccak(b"b");
    let root = keccak_pair(&leaf_a, &leaf_b);
    // leaf_a sits on the left: bit 0 of the index is 0, sibling is leaf_b.
    assert_eq!(compute_inclusion_root(&leaf_a, 0, &vec![leaf_b]), root);
    // leaf_b sits on the right: bit 0 of the index is 1, sibling is leaf_a.
    assert_eq!(compute_inclusion_root(&leaf_b, 1, &vec![leaf_a]), root);
    // The wrong bit folds to a different root.
    assert_ne!(compute_inclusion_root(&leaf_a, 1, &vec![leaf_b]), root);
}

#[test]
fn fold_four_leaf_tree_all_positions() {
    let leaves: Vec<[u8; 32]> = (0u8..4).map(|i| keccak(&[i])).collect();
    let n01 = keccak_pair(&leaves[0], &leaves[1]);
    let n23 = keccak_pair(&leaves[2], &leaves[3]);
    let root = keccak_pair(&n01, &n23);
    assert_eq!(compute_inclusion_root(&leaves[0], 0, &vec![leaves[1], n23]), root);
    assert_eq!(compute_inclusion_root(&leaves[1], 1, &vec![leaves[0], n23]), root);
    assert_eq!(compute_inclusion_root(&leaves[2], 2, &vec![leaves[3], n01]), root);
    assert_eq!(compute_inclusion_root(&leaves[3], 3, &vec![leaves[2], n01]), root);
}

#[test]
fn fold_with_no_siblings_is_the_leaf_itself() {
    let leaf = keccak(b"alone");
    assert_eq!(compute_inclusion_root(&leaf, 0, &vec![]), leaf);
}
