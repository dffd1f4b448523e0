use solana_program::keccak::hashv;
use sstars_ido::merkle_proof::{bytes_eq, hash_pair, lex_le_bytes, verify};
use sstars_ido::trim::TrimAsciiWhitespace;
use sstars_ido::whitelist::{hash_leaf, set_whitelist, verify as verify_entry, verify_merkle, WhitelistAccount};
use sstars_ido::error::ErrorCode;

fn wallet(b: u8) -> [u8; 32] {
    [b; 32]
}

/// A four-leaf tree: its root and the proof of each leaf.
fn tree4(leaves: [[u8; 32]; 4]) -> ([u8; 32], Vec<Vec<[u8; 32]>>) {
    let n01 = hash_pair(&leaves[0], &leaves[1]);
    let n23 = hash_pair(&leaves[2], &leaves[3]);
    let root = hash_pair(&n01, &n23);
    let proofs = vec![
        vec![leaves[1], n23],
        vec![leaves[0], n23],
        vec![leaves[3], n01],
        vec![leaves[2], n01],
    ];
    (root, proofs)
}

fn entries() -> [(u64, u64, [u8; 32]); 4] {
    [(0, 100, wallet(1)), (1, 50, wallet(2)), (2, 7, wallet(3)), (3, 1_000, wallet(4))]
}

fn built() -> ([[u8; 32]; 4], [u8; 32], Vec<Vec<[u8; 32]>>) {
    let e = entries();
    let leaves = [
        hash_leaf(e[0].0, e[0].1, &e[0].2),
        hash_leaf(e[1].0, e[1].1, &e[1].2),
        hash_leaf(e[2].0, e[2].1, &e[2].2),
        hash_leaf(e[3].0, e[3].1, &e[3].2),
    ];
    let (root, proofs) = tree4(leaves);
    (leaves, root, proofs)
}

#[test]
fn leaf_matches_keccak_of_prefixed_fields() {
    let w = wallet(9);
    let expected = hashv(&[&[0u8], &5u64.to_le_bytes(), &w, &77u64.to_le_bytes()]).0;
    assert_eq!(hash_leaf(5, 77, &w), expected);
}

#[test]
fn pair_hashes_smaller_first() {
    let a = [1u8; 32];
    let b = [2u8; 32];
    let expected = hashv(&[&a, &b]).0;
    assert_eq!(hash_pair(&a, &b), expected);
    assert_eq!(hash_pair(&b, &a), expected);
    assert_ne!(hash_pair(&a, &b), a);
}

#[test]
fn pair_is_symmetric_on_close_values() {
    let mut a = [7u8; 32];
    let mut b = [7u8; 32];
    a[31] = 1;
    b[31] = 2;
    assert_eq!(hash_pair(&a, &b), hash_pair(&b, &a));
    assert_eq!(hash_pair(&a, &a), hashv(&[&a, &a]).0);
}

#[test]
fn lexicographic_order_of_nodes() {
    let mut a = [0u8; 32];
    let mut b = [0u8; 32];
    assert!(lex_le_bytes(&a, &b));
    a[3] = 1;
    b[4] = 200;
    assert!(!lex_le_bytes(&a, &b));
    assert!(lex_le_bytes(&b, &a));
    assert!(bytes_eq(&a, &a));
    assert!(!bytes_eq(&a, &b));
}

#[test]
fn empty_proof_accepts_only_the_root() {
    let leaf = [3u8; 32];
    assert!(verify(vec![], leaf, leaf));
    assert!(!verify(vec![], [4u8; 32], leaf));
}

#[test]
fn every_leaf_of_a_tree_is_proven() {
    let e = entries();
    let (leaves, root, proofs) = built();
    for i in 0..4 {
        assert!(verify(proofs[i].clone(), root, leaves[i]));
        assert!(verify_merkle(e[i].0, e[i].1, e[i].2, proofs[i].clone(), root));
    }
}

#[test]
fn proof_order_independent_of_sides() {
    // A two-leaf tree proves either leaf with the other one alone.
    let l = hash_leaf(0, 1, &wallet(1));
    let r = hash_leaf(1, 2, &wallet(2));
    let root = hash_pair(&r, &l);
    assert!(verify(vec![r], root, l));
    assert!(verify(vec![l], root, r));
}

#[test]
fn mutated_byte_is_rejected() {
    let (leaves, root, proofs) = built();
    let mut bad_leaf = leaves[0];
    bad_leaf[10] ^= 1;
    assert!(!verify(proofs[0].clone(), root, bad_leaf));
    let mut bad_proof = proofs[0].clone();
    bad_proof[1][0] ^= 0x80;
    assert!(!verify(bad_proof, root, leaves[0]));
    let mut bad_root = root;
    bad_root[31] ^= 1;
    assert!(!verify(proofs[0].clone(), bad_root, leaves[0]));
}

#[test]
fn wrong_cap_or_wallet_is_rejected() {
    let e = entries();
    let (_, root, proofs) = built();
    assert!(!verify_merkle(e[0].0, e[0].1 + 1, e[0].2, proofs[0].clone(), root));
    assert!(!verify_merkle(e[0].0, e[0].1, wallet(2), proofs[0].clone(), root));
    assert!(!verify_merkle(e[0].0 + 1, e[0].1, e[0].2, proofs[0].clone(), root));
}

#[test]
fn standalone_verify_needs_a_root() {
    let e = entries();
    let (_, root, proofs) = built();
    let mut wl: Option<WhitelistAccount> = None;
    assert_eq!(verify_entry(&wl, e[1].0, e[1].1, e[1].2, proofs[1].clone()), Err(ErrorCode::NotFound));
    set_whitelist(&mut wl, root);
    assert_eq!(verify_entry(&wl, e[1].0, e[1].1, e[1].2, proofs[1].clone()), Ok(()));
    assert_eq!(
        verify_entry(&wl, e[1].0, e[1].1, e[0].2, proofs[1].clone()),
        Err(ErrorCode::InvalidProof)
    );
}

#[test]
fn replacing_the_root_invalidates_old_proofs() {
    let e = entries();
    let (_, root, proofs) = built();
    let mut wl: Option<WhitelistAccount> = None;
    set_whitelist(&mut wl, root);
    set_whitelist(&mut wl, [0u8; 32]);
    assert_eq!(wl.as_ref().map(|w| w.root), Some([0u8; 32]));
    assert_eq!(
        verify_entry(&wl, e[2].0, e[2].1, e[2].2, proofs[2].clone()),
        Err(ErrorCode::InvalidProof)
    );
}

#[test]
fn trims_ascii_whitespace() {
    let name: &[u8] = b"  sale 1\t\n ";
    assert_eq!(name.trim_ascii_whitespace(), b"sale 1");
    let padded: &[u8] = b"ido       ";
    assert_eq!(padded.trim_ascii_whitespace(), b"ido");
    let blank: &[u8] = b" \r\x0c ";
    assert_eq!(blank.trim_ascii_whitespace(), b"");
    let empty: &[u8] = b"";
    assert_eq!(empty.trim_ascii_whitespace(), b"");
    let solid: &[u8] = b"x";
    assert_eq!(solid.trim_ascii_whitespace(), b"x");
}
