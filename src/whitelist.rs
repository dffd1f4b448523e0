//! The allow-list: leaf construction for a (index, wallet, cap) entry, the
//! published root, and membership checks against it.
use crate::error::ErrorCode;
use crate::hashing::{keccak256, keccak256_of};
use crate::merkle_proof::{
    self, digests_are_32_bytes, keccak_collision, lemma_changed_leaf_rejected, proof_accepted,
};
use vstd::prelude::*;

verus! {

/// The `n` low bytes of `v`, least significant first.
pub open spec fn le_bytes(v: nat, n: nat) -> Seq<u8>
    decreases n,
{
    if n == 0 {
        seq![]
    } else {
        seq![(v % 256) as u8] + le_bytes(v / 256, (n - 1) as nat)
    }
}

/// The bytes hashed into a leaf: a zero domain-separation byte, the index and
/// the value as 8 little-endian bytes each, with the wallet between them.
pub open spec fn leaf_preimage(index: u64, value: u64, wallet: Seq<u8>) -> Seq<u8> {
    seq![0u8] + le_bytes(index as nat, 8) + wallet + le_bytes(value as nat, 8)
}

/// The leaf of the allow-list entry `(index, value, wallet)`.
pub open spec fn leaf_hash_spec(index: u64, value: u64, wallet: Seq<u8>) -> Seq<u8> {
    keccak256_of(leaf_preimage(index, value, wallet))
}

/// The entry `(index, value, wallet)` is in the allow-list with root `root`, by `proof`.
pub open spec fn entry_proven(
    index: u64,
    value: u64,
    wallet: Seq<u8>,
    proof: Seq<[u8; 32]>,
    root: Seq<u8>,
) -> bool {
    proof_accepted(proof, root, leaf_hash_spec(index, value, wallet))
}

/// Without a Keccak-256 collision, a proof accepted for one allow-list entry
/// rejects every entry whose leaf bytes differ, under the same root.
pub proof fn lemma_changed_entry_rejected(
    index: u64,
    value: u64,
    wallet: Seq<u8>,
    index2: u64,
    value2: u64,
    wallet2: Seq<u8>,
    proof: Seq<[u8; 32]>,
    root: Seq<u8>,
)
    requires
        digests_are_32_bytes(),
        leaf_preimage(index, value, wallet) != leaf_preimage(index2, value2, wallet2),
        entry_proven(index, value, wallet, proof, root),
    ensures
        !keccak_collision() ==> !entry_proven(index2, value2, wallet2, proof, root),
{
    let p1 = leaf_preimage(index, value, wallet);
    let p2 = leaf_preimage(index2, value2, wallet2);
    let l1 = leaf_hash_spec(index, value, wallet);
    let l2 = leaf_hash_spec(index2, value2, wallet2);
    assert(l1.len() == 32 && l2.len() == 32) by {
        assert(keccak256_of(p1).len() == 32);
        assert(keccak256_of(p2).len() == 32);
    }
    if l1 == l2 {
        assert(keccak_collision());
    } else {
        lemma_changed_leaf_rejected(proof, root, l1, l2);
    }
}

fn push_le_u64(out: &mut Vec<u8>, v: u64)
    ensures
        final(out)@ == old(out)@ + le_bytes(v as nat, 8),
{
    let mut x: u64 = v;
    let mut i: usize = 0;
    while i < 8
        invariant
            0 <= i <= 8,
            out@ + le_bytes(x as nat, (8 - i) as nat) == old(out)@ + le_bytes(v as nat, 8),
        decreases 8 - i,
    {
        let ghost before = out@;
        out.push((x % 256) as u8);
        assert(le_bytes(x as nat, (8 - i) as nat) == seq![(x as nat % 256) as u8] + le_bytes(
            x as nat / 256,
            (8 - i - 1) as nat,
        ));
        assert(out@ + le_bytes(x as nat / 256, (8 - i - 1) as nat) =~= before + le_bytes(
            x as nat,
            (8 - i) as nat,
        ));
        x = x / 256;
        i = i + 1;
    }
    assert(le_bytes(x as nat, 0) =~= Seq::<u8>::empty());
    assert(out@ =~= out@ + le_bytes(x as nat, 0));
}

/// The leaf of the allow-list entry `(index, value, wallet)`.
pub fn hash_leaf(index: u64, value: u64, wallet: &[u8; 32]) -> (r: [u8; 32])
    ensures
        r@ == leaf_hash_spec(index, value, wallet@),
{
    let mut data: Vec<u8> = Vec::new();
    data.push(0u8);
    push_le_u64(&mut data, index);
    let mut i: usize = 0;
    let ghost start = data@;
    while i < 32
        invariant
            0 <= i <= 32,
            wallet@.len() == 32,
            data@ == start + wallet@.subrange(0, i as int),
        decreases 32 - i,
    {
        data.push(wallet[i]);
        i = i + 1;
    }
    assert(wallet@.subrange(0, 32) =~= wallet@);
    push_le_u64(&mut data, value);
    assert(data@ =~= leaf_preimage(index, value, wallet@));
    keccak256(&data)
}

/// Checks the entry `(index, value, wallet)` against `root` with `proof`.
pub fn verify_merkle(index: u64, value: u64, wallet: [u8; 32], proof: Vec<[u8; 32]>, root: [u8; 32]) -> (r:
    bool)
    ensures
        r == entry_proven(index, value, wallet@, proof@, root@),
{
    let node = hash_leaf(index, value, &wallet);
    merkle_proof::verify(proof, root, node)
}

/// The published allow-list root of one sale.
#[derive(Debug, Clone, Copy, PartialEq, Eq)]
pub struct WhitelistAccount {
    pub root: [u8; 32],
}

impl WhitelistAccount {
    /// Size of the record's fields, in bytes.
    pub const LEN: usize = 32;
}

/// The root in `whitelist`, or `NotFound` where none has been published.
pub open spec fn root_of(whitelist: Option<WhitelistAccount>) -> Result<Seq<u8>, ErrorCode> {
    match whitelist {
        Some(w) => Ok(w.root@),
        None => Err(ErrorCode::NotFound),
    }
}

/// Publishes `root`: creates the record on first use, overwrites it afterwards.
pub fn set_whitelist(whitelist: &mut Option<WhitelistAccount>, root: [u8; 32])
    ensures
        *final(whitelist) == Some(WhitelistAccount { root }),
{
    *whitelist = Some(WhitelistAccount { root });
}

/// The standalone membership check: `Ok` exactly when a root is published and
/// the entry is proven against it.
pub fn verify(
    whitelist: &Option<WhitelistAccount>,
    index: u64,
    value: u64,
    wallet: [u8; 32],
    proof: Vec<[u8; 32]>,
) -> (r: Result<(), ErrorCode>)
    ensures
        r == (match root_of(*whitelist) {
            Err(e) => Err(e),
            Ok(root) => if entry_proven(index, value, wallet@, proof@, root) {
                Ok(())
            } else {
                Err(ErrorCode::InvalidProof)
            },
        }),
{
    match whitelist {
        None => Err(ErrorCode::NotFound),
        Some(w) => {
            if verify_merkle(index, value, wallet, proof, w.root) {
                Ok(())
            } else {
                Err(ErrorCode::InvalidProof)
            }
        },
    }
}

} // verus!
