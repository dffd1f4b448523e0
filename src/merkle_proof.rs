//! Membership proofs over a Merkle tree whose internal nodes hash their two
//! children in ascending byte order, so a proof needs no left/right flags.
use crate::hashing::{keccak256, keccak256_of};
use vstd::prelude::*;

verus! {

/// `a` comes before or equals `b` in byte-lexicographic order, comparing
/// from position `i` on; a proper prefix comes first.
pub open spec fn lex_le_from(a: Seq<u8>, b: Seq<u8>, i: int) -> bool
    decreases a.len() - i,
{
    if i < 0 || i >= a.len() {
        true
    } else if i >= b.len() {
        false
    } else if a[i] != b[i] {
        a[i] < b[i]
    } else {
        lex_le_from(a, b, i + 1)
    }
}

/// Byte-lexicographic `a <= b`.
pub open spec fn lex_le(a: Seq<u8>, b: Seq<u8>) -> bool {
    lex_le_from(a, b, 0)
}

/// The parent of two nodes: the digest of the smaller one followed by the larger.
pub open spec fn hash_pair_spec(a: Seq<u8>, b: Seq<u8>) -> Seq<u8> {
    if lex_le(a, b) {
        keccak256_of(a + b)
    } else {
        keccak256_of(b + a)
    }
}

/// The root reached from `leaf` by pairing it with each of `nodes` in turn.
pub open spec fn root_from_nodes(leaf: Seq<u8>, nodes: Seq<Seq<u8>>) -> Seq<u8>
    decreases nodes.len(),
{
    if nodes.len() == 0 {
        leaf
    } else {
        hash_pair_spec(root_from_nodes(leaf, nodes.drop_last()), nodes.last())
    }
}

/// The nodes of a proof, as byte strings.
pub open spec fn proof_nodes(proof: Seq<[u8; 32]>) -> Seq<Seq<u8>> {
    proof.map_values(|p: [u8; 32]| p@)
}

/// The root reached from `leaf` by pairing it with each proof element in turn.
pub open spec fn merkle_root(leaf: Seq<u8>, proof: Seq<[u8; 32]>) -> Seq<u8> {
    root_from_nodes(leaf, proof_nodes(proof))
}

/// A Merkle tree over leaf hashes.
pub enum MerkleTree {
    Leaf(Seq<u8>),
    Node(Box<MerkleTree>, Box<MerkleTree>),
}

/// The hash at the top of `t`.
pub open spec fn tree_root(t: MerkleTree) -> Seq<u8>
    decreases t,
{
    match t {
        MerkleTree::Leaf(h) => h,
        MerkleTree::Node(l, r) => hash_pair_spec(tree_root(*l), tree_root(*r)),
    }
}

/// The leaf reached from the top of `t` by `path` (`true` for the right
/// child), where `path` leads to a leaf.
pub open spec fn leaf_at(t: MerkleTree, path: Seq<bool>) -> Option<Seq<u8>>
    decreases path.len(),
{
    match t {
        MerkleTree::Leaf(h) => if path.len() == 0 {
            Some(h)
        } else {
            None
        },
        MerkleTree::Node(l, r) => if path.len() == 0 {
            None
        } else if path[0] {
            leaf_at(*r, path.drop_first())
        } else {
            leaf_at(*l, path.drop_first())
        },
    }
}

/// The proof of the leaf at `path`: the siblings along the way, from the
/// leaf's level up to the level below the top.
pub open spec fn proof_path(t: MerkleTree, path: Seq<bool>) -> Seq<Seq<u8>>
    decreases path.len(),
{
    match t {
        MerkleTree::Leaf(_) => seq![],
        MerkleTree::Node(l, r) => if path.len() == 0 {
            seq![]
        } else if path[0] {
            proof_path(*r, path.drop_first()).push(tree_root(*l))
        } else {
            proof_path(*l, path.drop_first()).push(tree_root(*r))
        },
    }
}

/// `proof` shows that `leaf` is a member of the tree with root `root`.
pub open spec fn proof_accepted(proof: Seq<[u8; 32]>, root: Seq<u8>, leaf: Seq<u8>) -> bool {
    merkle_root(leaf, proof) == root
}

proof fn lemma_lex_total_from(a: Seq<u8>, b: Seq<u8>, i: int)
    requires
        0 <= i,
        i <= a.len(),
        i <= b.len(),
    ensures
        lex_le_from(a, b, i) || lex_le_from(b, a, i),
        lex_le_from(a, b, i) && lex_le_from(b, a, i) ==> a.subrange(i, a.len() as int)
            == b.subrange(i, b.len() as int),
    decreases a.len() - i,
{
    if i < a.len() && i < b.len() {
        lemma_lex_total_from(a, b, i + 1);
        if a[i] == b[i] {
            assert(a.subrange(i, a.len() as int) =~= seq![a[i]] + a.subrange(
                i + 1,
                a.len() as int,
            ));
            assert(b.subrange(i, b.len() as int) =~= seq![b[i]] + b.subrange(
                i + 1,
                b.len() as int,
            ));
        }
    } else if i == a.len() && i == b.len() {
        assert(a.subrange(i, a.len() as int) =~= b.subrange(i, b.len() as int));
    }
}

/// Byte-lexicographic order is total and antisymmetric.
pub proof fn lemma_lex_total(a: Seq<u8>, b: Seq<u8>)
    ensures
        lex_le(a, b) || lex_le(b, a),
        lex_le(a, b) && lex_le(b, a) ==> a == b,
{
    lemma_lex_total_from(a, b, 0);
    assert(a.subrange(0, a.len() as int) =~= a);
    assert(b.subrange(0, b.len() as int) =~= b);
}

/// Pairing is symmetric: which of the two nodes is the current one and which
/// the sibling does not change the parent.
pub proof fn lemma_hash_pair_symmetric(a: Seq<u8>, b: Seq<u8>)
    ensures
        hash_pair_spec(a, b) == hash_pair_spec(b, a),
{
    lemma_lex_total(a, b);
}

proof fn lemma_path_leads_to_root(t: MerkleTree, path: Seq<bool>)
    requires
        leaf_at(t, path) is Some,
    ensures
        root_from_nodes(leaf_at(t, path)->Some_0, proof_path(t, path)) == tree_root(t),
    decreases path.len(),
{
    match t {
        MerkleTree::Leaf(h) => {},
        MerkleTree::Node(l, r) => {
            let rest = path.drop_first();
            if path[0] {
                lemma_path_leads_to_root(*r, rest);
                let nodes = proof_path(t, path);
                assert(nodes.drop_last() =~= proof_path(*r, rest));
                lemma_hash_pair_symmetric(tree_root(*r), tree_root(*l));
            } else {
                lemma_path_leads_to_root(*l, rest);
                let nodes = proof_path(t, path);
                assert(nodes.drop_last() =~= proof_path(*l, rest));
            }
        },
    }
}

/// Every leaf of a tree is accepted with the proof generated for it against
/// the tree's root, and against no other root.
pub proof fn lemma_tree_round_trip(t: MerkleTree, path: Seq<bool>, proof: Seq<[u8; 32]>, root: Seq<u8>)
    requires
        leaf_at(t, path) is Some,
        proof_nodes(proof) == proof_path(t, path),
    ensures
        proof_accepted(proof, tree_root(t), leaf_at(t, path)->Some_0),
        root != tree_root(t) ==> !proof_accepted(proof, root, leaf_at(t, path)->Some_0),
{
    lemma_path_leads_to_root(t, path);
}

/// Two different byte strings with the same Keccak-256 digest exist.
pub open spec fn keccak_collision() -> bool {
    exists|x: Seq<u8>, y: Seq<u8>| x != y && keccak256_of(x) == keccak256_of(y)
}

/// Every Keccak-256 digest is 32 bytes long.
pub open spec fn digests_are_32_bytes() -> bool {
    forall|x: Seq<u8>| #[trigger] keccak256_of(x).len() == 32
}

/// The bytes hashed into the parent of `a` and `b`.
pub open spec fn pair_preimage(a: Seq<u8>, b: Seq<u8>) -> Seq<u8> {
    if lex_le(a, b) {
        a + b
    } else {
        b + a
    }
}

proof fn lemma_pair_collision(a1: Seq<u8>, b1: Seq<u8>, a2: Seq<u8>, b2: Seq<u8>)
    requires
        a1.len() == 32,
        b1.len() == 32,
        a2.len() == 32,
        b2.len() == 32,
        hash_pair_spec(a1, b1) == hash_pair_spec(a2, b2),
    ensures
        keccak_collision() || (a1 == a2 && b1 == b2) || (a1 == b2 && b1 == a2),
{
    let p1 = pair_preimage(a1, b1);
    let p2 = pair_preimage(a2, b2);
    assert(keccak256_of(p1) == hash_pair_spec(a1, b1));
    assert(keccak256_of(p2) == hash_pair_spec(a2, b2));
    if p1 != p2 {
        assert(keccak_collision());
    } else {
        let (x1, y1) = if lex_le(a1, b1) { (a1, b1) } else { (b1, a1) };
        let (x2, y2) = if lex_le(a2, b2) { (a2, b2) } else { (b2, a2) };
        assert(p1 == x1 + y1);
        assert(p2 == x2 + y2);
        assert(x1 =~= p1.subrange(0, 32));
        assert(x2 =~= p2.subrange(0, 32));
        assert(y1 =~= p1.subrange(32, 64));
        assert(y2 =~= p2.subrange(32, 64));
    }
}

proof fn lemma_root_len(leaf: Seq<u8>, nodes: Seq<Seq<u8>>)
    requires
        leaf.len() == 32,
        digests_are_32_bytes(),
    ensures
        root_from_nodes(leaf, nodes).len() == 32,
{
    if nodes.len() > 0 {
        let c = root_from_nodes(leaf, nodes.drop_last());
        let s = nodes.last();
        assert(hash_pair_spec(c, s) == keccak256_of(pair_preimage(c, s)));
    }
}

proof fn lemma_leaves_collide(l1: Seq<u8>, l2: Seq<u8>, nodes: Seq<Seq<u8>>)
    requires
        l1.len() == 32,
        l2.len() == 32,
        l1 != l2,
        forall|j: int| 0 <= j < nodes.len() ==> (#[trigger] nodes[j]).len() == 32,
        digests_are_32_bytes(),
        root_from_nodes(l1, nodes) == root_from_nodes(l2, nodes),
    ensures
        keccak_collision(),
    decreases nodes.len(),
{
    if nodes.len() > 0 {
        let rest = nodes.drop_last();
        let c1 = root_from_nodes(l1, rest);
        let c2 = root_from_nodes(l2, rest);
        lemma_root_len(l1, rest);
        lemma_root_len(l2, rest);
        lemma_pair_collision(c1, nodes.last(), c2, nodes.last());
        if !keccak_collision() {
            lemma_leaves_collide(l1, l2, rest);
        }
    }
}

proof fn lemma_nodes_collide(leaf: Seq<u8>, n1: Seq<Seq<u8>>, n2: Seq<Seq<u8>>, k: int)
    requires
        leaf.len() == 32,
        n1.len() == n2.len(),
        0 <= k < n1.len(),
        n1[k] != n2[k],
        forall|j: int| 0 <= j < n1.len() && j != k ==> n1[j] == n2[j],
        forall|j: int| 0 <= j < n1.len() ==> (#[trigger] n1[j]).len() == 32,
        forall|j: int| 0 <= j < n2.len() ==> (#[trigger] n2[j]).len() == 32,
        digests_are_32_bytes(),
        root_from_nodes(leaf, n1) == root_from_nodes(leaf, n2),
    ensures
        keccak_collision(),
    decreases n1.len(),
{
    let last = n1.len() - 1;
    let r1 = n1.drop_last();
    let r2 = n2.drop_last();
    let c1 = root_from_nodes(leaf, r1);
    let c2 = root_from_nodes(leaf, r2);
    lemma_root_len(leaf, r1);
    lemma_root_len(leaf, r2);
    assert(n1[last] == n1.last());
    assert(n2[last] == n2.last());
    if k == last {
        assert(r1 =~= r2);
        lemma_pair_collision(c1, n1.last(), c2, n2.last());
    } else {
        assert(n1.last() == n2.last());
        lemma_pair_collision(c1, n1.last(), c2, n2.last());
        if !keccak_collision() {
            assert(c1 == c2);
            lemma_nodes_collide(leaf, r1, r2, k);
        }
    }
}

/// Without a Keccak-256 collision, a proof accepted for one 32-byte leaf
/// rejects every other leaf under the same root.
pub proof fn lemma_changed_leaf_rejected(
    proof: Seq<[u8; 32]>,
    root: Seq<u8>,
    leaf: Seq<u8>,
    other: Seq<u8>,
)
    requires
        digests_are_32_bytes(),
        leaf.len() == 32,
        other.len() == 32,
        leaf != other,
        proof_accepted(proof, root, leaf),
    ensures
        !keccak_collision() ==> !proof_accepted(proof, root, other),
{
    if proof_accepted(proof, root, other) {
        lemma_leaves_collide(leaf, other, proof_nodes(proof));
    }
}

/// Without a Keccak-256 collision, changing one element of an accepted proof
/// makes it rejected for the same leaf and root.
pub proof fn lemma_changed_proof_rejected(
    proof: Seq<[u8; 32]>,
    other: Seq<[u8; 32]>,
    root: Seq<u8>,
    leaf: Seq<u8>,
    k: int,
)
    requires
        digests_are_32_bytes(),
        leaf.len() == 32,
        proof.len() == other.len(),
        0 <= k < proof.len(),
        proof[k] != other[k],
        forall|j: int| 0 <= j < proof.len() && j != k ==> proof[j] == other[j],
        proof_accepted(proof, root, leaf),
    ensures
        !keccak_collision() ==> !proof_accepted(other, root, leaf),
{
    if proof_accepted(other, root, leaf) {
        let n1 = proof_nodes(proof);
        let n2 = proof_nodes(other);
        assert(n1[k] != n2[k]) by {
            assert(proof[k]@ != other[k]@) by {
                if proof[k]@ == other[k]@ {
                    assert(proof[k] == other[k]);
                }
            }
        }
        lemma_nodes_collide(leaf, n1, n2, k);
    }
}

/// Byte-lexicographic comparison of two 32-byte nodes.
pub fn lex_le_bytes(a: &[u8; 32], b: &[u8; 32]) -> (r: bool)
    ensures
        r == lex_le(a@, b@),
{
    let mut i: usize = 0;
    while i < 32
        invariant
            0 <= i <= 32,
            a@.len() == 32,
            b@.len() == 32,
            forall|j: int| 0 <= j < i ==> a@[j] == b@[j],
            lex_le(a@, b@) == lex_le_from(a@, b@, i as int),
        decreases 32 - i,
    {
        if a[i] != b[i] {
            return a[i] < b[i];
        }
        i = i + 1;
    }
    true
}

/// Equality of two 32-byte nodes.
pub fn bytes_eq(a: &[u8; 32], b: &[u8; 32]) -> (r: bool)
    ensures
        r == (a@ == b@),
{
    let mut i: usize = 0;
    while i < 32
        invariant
            0 <= i <= 32,
            a@.len() == 32,
            b@.len() == 32,
            forall|j: int| 0 <= j < i ==> a@[j] == b@[j],
        decreases 32 - i,
    {
        if a[i] != b[i] {
            return false;
        }
        i = i + 1;
    }
    assert(a@ =~= b@);
    true
}

fn push_all(out: &mut Vec<u8>, bytes: &[u8; 32])
    ensures
        final(out)@ == old(out)@ + bytes@,
{
    let mut i: usize = 0;
    while i < 32
        invariant
            0 <= i <= 32,
            bytes@.len() == 32,
            out@ == old(out)@ + bytes@.subrange(0, i as int),
        decreases 32 - i,
    {
        out.push(bytes[i]);
        i = i + 1;
    }
    assert(bytes@.subrange(0, 32) =~= bytes@);
}

/// The parent node of `a` and `b`: the digest of the smaller followed by the larger.
pub fn hash_pair(a: &[u8; 32], b: &[u8; 32]) -> (r: [u8; 32])
    ensures
        r@ == hash_pair_spec(a@, b@),
{
    let mut data: Vec<u8> = Vec::new();
    if lex_le_bytes(a, b) {
        push_all(&mut data, a);
        push_all(&mut data, b);
    } else {
        push_all(&mut data, b);
        push_all(&mut data, a);
    }
    assert(data@ =~= if lex_le(a@, b@) { a@ + b@ } else { b@ + a@ });
    keccak256(&data)
}

/// Recomputes the root from `leaf` and `proof` and compares it with `root`.
/// An empty proof is accepted exactly when the leaf is the root.
pub fn verify(proof: Vec<[u8; 32]>, root: [u8; 32], leaf: [u8; 32]) -> (r: bool)
    ensures
        r == proof_accepted(proof@, root@, leaf@),
{
    let mut current: [u8; 32] = leaf;
    let mut i: usize = 0;
    while i < proof.len()
        invariant
            0 <= i <= proof@.len(),
            current@ == merkle_root(leaf@, proof@.subrange(0, i as int)),
        decreases proof@.len() - i,
    {
        let next = hash_pair(&current, &proof[i]);
        proof {
            let p = proof@.subrange(0, i as int + 1);
            assert(proof_nodes(p).drop_last() =~= proof_nodes(proof@.subrange(0, i as int)));
            assert(proof_nodes(p).last() == proof@[i as int]@);
        }
        current = next;
        i = i + 1;
    }
    assert(proof@.subrange(0, proof@.len() as int) =~= proof@);
    bytes_eq(&current, &root)
}

} // verus!
