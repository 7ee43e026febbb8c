//! Merkle commitment builder over the cross-layer logs of a batch.
//!
//! The tree has a fixed depth chosen per batch: the leaf hashes of the
//! logs sit at level zero in emission order, the sequence is padded up to
//! the tree's capacity with a canonical zero leaf, and each inner node is
//! the domain-separated hash of its left child before its right child.
//! Zero subtrees are taken from a precomputed chain, not rehashed leaf by
//! leaf. `prove_at` returns the sibling hash at each level in leaf-to-root
//! order, and `verify_proof` recomputes a root from a leaf and such a path.

use vstd::prelude::*;

use vstd::arithmetic::div_mod::lemma_basic_div;
use vstd::arithmetic::div_mod::lemma_div_basics;
use vstd::arithmetic::div_mod::lemma_div_denominator;
use vstd::arithmetic::div_mod::lemma_fundamental_div_mod;
use vstd::arithmetic::power2::lemma2_to64;
use vstd::arithmetic::power2::lemma_pow2_adds;
use vstd::arithmetic::power2::lemma_pow2_pos;
use vstd::arithmetic::power2::lemma_pow2_strictly_increases;
use vstd::arithmetic::power2::pow2;

use crate::hashing::leaf_hash;
use crate::hashing::node_hash;
use crate::hashing::spec_leaf_hash;
use crate::hashing::spec_node_hash;
use crate::hashing::zero_leaf;
use crate::hashing::zero_leaf_value;
use crate::types::Hash256;
use crate::types::L2ToL1Log;
use crate::types::LogProof;
use crate::types::ProofError;

verus! {

/// Greatest supported tree depth; a batch never holds more than
/// 2^MAX_TREE_DEPTH logs.
pub const MAX_TREE_DEPTH: u64 = 32;

/// Root of the all-empty subtree at the given level: the zero leaf at
/// level zero, and at each level above the hash of two equal zero
/// subtrees.
pub open spec fn zero_hash(level: nat) -> Hash256
    decreases level,
{
    if level == 0 {
        zero_leaf()
    } else {
        spec_node_hash(zero_hash((level - 1) as nat), zero_hash((level - 1) as nat))
    }
}

/// Hash of the tree node at `level` and position `pos` within that level.
/// The node covers the leaves in `[pos * 2^level, (pos + 1) * 2^level)`;
/// positions beyond the given leaves hold the zero leaf.
pub open spec fn node_at(leaves: Seq<Hash256>, level: nat, pos: nat) -> Hash256
    decreases level,
{
    if level == 0 {
        if pos < leaves.len() {
            leaves[pos as int]
        } else {
            zero_leaf()
        }
    } else {
        spec_node_hash(
            node_at(leaves, (level - 1) as nat, 2 * pos),
            node_at(leaves, (level - 1) as nat, 2 * pos + 1),
        )
    }
}

/// Root of the depth-`depth` tree over `leaves`, padded with zero leaves.
pub open spec fn merkle_root(leaves: Seq<Hash256>, depth: nat) -> Hash256 {
    node_at(leaves, depth, 0)
}

/// Leaf hashes of a log sequence, in emission order.
pub open spec fn leaf_hashes(logs: Seq<L2ToL1Log>) -> Seq<Hash256> {
    logs.map_values(|g: L2ToL1Log| spec_leaf_hash(g))
}

/// The committed root of a batch: the Merkle root over its logs' leaf
/// hashes. A pure function of the log sequence and the depth alone.
pub open spec fn batch_root(logs: Seq<L2ToL1Log>, depth: nat) -> Hash256 {
    merkle_root(leaf_hashes(logs), depth)
}

/// Position of the sibling of node `pos` within its level.
pub open spec fn sibling_pos(pos: nat) -> nat {
    if pos % 2 == 0 {
        pos + 1
    } else {
        (pos - 1) as nat
    }
}

/// The sibling path for leaf `index`, in leaf-to-root order: at level `l`
/// the hash of the sibling of the leaf's ancestor at that level.
pub open spec fn proof_path(leaves: Seq<Hash256>, depth: nat, index: nat) -> Seq<Hash256> {
    Seq::new(depth, |l: int| node_at(leaves, l as nat, sibling_pos(index / pow2(l as nat))))
}

/// Recompute a root from a leaf value, its index, and a sibling path in
/// leaf-to-root order; at each level the running hash is combined with the
/// sibling on the side the index bit selects.
pub open spec fn climb(leaf: Hash256, index: nat, path: Seq<Hash256>) -> Hash256
    decreases path.len(),
{
    if path.len() == 0 {
        leaf
    } else {
        let next = if index % 2 == 0 {
            spec_node_hash(leaf, path[0])
        } else {
            spec_node_hash(path[0], leaf)
        };
        climb(next, index / 2, path.drop_first())
    }
}

/// Powers of two do not shrink as the exponent grows.
proof fn lemma_pow2_le(a: nat, b: nat)
    requires
        a <= b,
    ensures
        pow2(a) <= pow2(b),
{
    if a < b {
        lemma_pow2_strictly_increases(a, b);
    }
}

/// A node whose whole span lies beyond the leaves is the zero subtree of
/// its level.
proof fn lemma_node_at_zero(leaves: Seq<Hash256>, level: nat, pos: nat)
    requires
        pos * pow2(level) >= leaves.len(),
    ensures
        node_at(leaves, level, pos) == zero_hash(level),
    decreases level,
{
    lemma2_to64();
    if level == 0 {
        assert(pos * pow2(0) == pos) by (nonlinear_arith)
            requires
                pow2(0) == 1,
        ;
    } else {
        let lm1 = (level - 1) as nat;
        lemma_pow2_adds(lm1, 1);
        assert((2 * pos) * pow2(lm1) == pos * pow2(level) && (2 * pos + 1) * pow2(lm1) >= pos
            * pow2(level)) by (nonlinear_arith)
            requires
                pow2(level) == pow2(lm1) * 2,
        ;
        lemma_node_at_zero(leaves, lm1, 2 * pos);
        lemma_node_at_zero(leaves, lm1, 2 * pos + 1);
    }
}

/// Appending one sibling to a path combines the recomputed subtree root
/// with that sibling, on the side the next index bit selects.
proof fn lemma_climb_push(leaf: Hash256, index: nat, path: Seq<Hash256>, sib: Hash256)
    ensures
        climb(leaf, index, path.push(sib)) == (if (index / pow2(path.len())) % 2 == 0 {
            spec_node_hash(climb(leaf, index, path), sib)
        } else {
            spec_node_hash(sib, climb(leaf, index, path))
        }),
    decreases path.len(),
{
    lemma2_to64();
    if path.len() == 0 {
        let next = if index % 2 == 0 {
            spec_node_hash(leaf, sib)
        } else {
            spec_node_hash(sib, leaf)
        };
        assert(path.push(sib).drop_first() =~= Seq::<Hash256>::empty());
        assert(climb(next, index / 2, Seq::<Hash256>::empty()) == next);
        lemma_div_basics(index as int);
        assert(index / pow2(0) == index);
    } else {
        let next = if index % 2 == 0 {
            spec_node_hash(leaf, path[0])
        } else {
            spec_node_hash(path[0], leaf)
        };
        assert(path.push(sib).drop_first() =~= path.drop_first().push(sib));
        lemma_climb_push(next, index / 2, path.drop_first(), sib);
        let lm1 = (path.len() - 1) as nat;
        lemma_pow2_pos(lm1);
        lemma_div_denominator(index as int, 2, pow2(lm1) as int);
        lemma_pow2_adds(1, lm1);
        assert((index / 2) / pow2(lm1) == index / pow2(path.len()));
        assert(climb(leaf, index, path.push(sib)) == climb(next, index / 2, path.drop_first().push(
            sib,
        )));
    }
}

/// Climbing the first `level` siblings of the proof path reaches the
/// ancestor of the leaf at that level.
proof fn lemma_climb_to_level(leaves: Seq<Hash256>, depth: nat, index: nat, level: nat)
    requires
        index < leaves.len(),
        level <= depth,
    ensures
        climb(leaves[index as int], index, proof_path(leaves, depth, index).take(level as int))
            == node_at(leaves, level, index / pow2(level)),
    decreases level,
{
    let p = proof_path(leaves, depth, index);
    lemma2_to64();
    if level == 0 {
        assert(p.take(0) =~= Seq::<Hash256>::empty());
        lemma_div_basics(index as int);
        assert(index / pow2(0) == index);
    } else {
        let lm1 = (level - 1) as nat;
        lemma_climb_to_level(leaves, depth, index, lm1);
        assert(p.take(level as int) =~= p.take(lm1 as int).push(p[lm1 as int]));
        lemma_climb_push(leaves[index as int], index, p.take(lm1 as int), p[lm1 as int]);
        let j = index / pow2(lm1);
        lemma_pow2_pos(lm1);
        lemma_div_denominator(index as int, pow2(lm1) as int, 2);
        lemma_pow2_adds(lm1, 1);
        assert(j / 2 == index / pow2(level));
        lemma_fundamental_div_mod(j as int, 2);
        assert(p.take(lm1 as int).len() == lm1);
        assert(p[lm1 as int] == node_at(leaves, lm1, sibling_pos(j)));
        if j % 2 == 0 {
            assert(2 * (j / 2) == j);
            assert(sibling_pos(j) == j + 1);
            assert(node_at(leaves, level, j / 2) == spec_node_hash(
                node_at(leaves, lm1, j),
                node_at(leaves, lm1, j + 1),
            ));
        } else {
            assert(2 * (j / 2) + 1 == j);
            assert(sibling_pos(j) == (j - 1) as nat);
            assert(node_at(leaves, level, j / 2) == spec_node_hash(
                node_at(leaves, lm1, (j - 1) as nat),
                node_at(leaves, lm1, j),
            ));
        }
    }
}

/// Merkle round trip: for every leaf sequence, every fitting depth and
/// every valid index, climbing the full sibling path from the leaf
/// recomputes exactly the committed root.
pub proof fn lemma_merkle_round_trip(leaves: Seq<Hash256>, depth: nat, index: nat)
    requires
        index < leaves.len(),
        leaves.len() <= pow2(depth),
    ensures
        climb(leaves[index as int], index, proof_path(leaves, depth, index)) == merkle_root(
            leaves,
            depth,
        ),
{
    let p = proof_path(leaves, depth, index);
    lemma_climb_to_level(leaves, depth, index, depth);
    assert(p.take(depth as int) =~= p);
    lemma_pow2_pos(depth);
    lemma_basic_div(index as int, pow2(depth) as int);
}

/// Determinism of the commitment: the root is a pure function of the log
/// sequence and the depth, so two builds over equal logs — in one process
/// or across restarts — give byte-identical roots; no ambient randomness
/// enters the hashing.
pub proof fn lemma_build_deterministic(
    r1: Hash256,
    r2: Hash256,
    logs: Seq<L2ToL1Log>,
    depth: nat,
)
    requires
        r1 == batch_root(logs, depth),
        r2 == batch_root(logs, depth),
    ensures
        r1 == r2,
{
}

/// 2^exponent as a machine integer.
pub fn pow2_u64(exponent: u64) -> (r: u64)
    requires
        exponent <= MAX_TREE_DEPTH,
    ensures
        r as nat == pow2(exponent as nat),
{
    let mut r: u64 = 1;
    let mut i: u64 = 0;
    proof {
        lemma2_to64();
    }
    while i < exponent
        invariant
            i <= exponent,
            exponent <= MAX_TREE_DEPTH,
            r as nat == pow2(i as nat),
        decreases exponent - i,
    {
        proof {
            lemma_pow2_adds(i as nat, 1);
            lemma2_to64();
            lemma_pow2_le((i + 1) as nat, MAX_TREE_DEPTH as nat);
        }
        r = r * 2;
        i = i + 1;
    }
    r
}

/// Root of the all-empty subtree at `level`, computed along the zero
/// chain.
pub fn zero_subtree_hash(level: u64) -> (r: Hash256)
    ensures
        r == zero_hash(level as nat),
    decreases level,
{
    if level == 0 {
        zero_leaf_value()
    } else {
        let child = zero_subtree_hash(level - 1);
        node_hash(&child, &child)
    }
}

/// The span start of a node stays below the tree's capacity.
proof fn lemma_span_bound(level: nat, pos: nat)
    requires
        level <= MAX_TREE_DEPTH,
        pos < pow2((MAX_TREE_DEPTH - level) as nat),
    ensures
        pos * pow2(level) < 0x1_0000_0000,
        pow2(level) >= 1,
        level == 0 ==> pow2(level) == 1,
{
    lemma_pow2_pos(level);
    lemma_pow2_adds((MAX_TREE_DEPTH - level) as nat, level);
    lemma2_to64();
    assert(pos * pow2(level) < pow2((MAX_TREE_DEPTH - level) as nat) * pow2(level))
        by (nonlinear_arith)
        requires
            pos < pow2((MAX_TREE_DEPTH - level) as nat),
            pow2(level) > 0,
    ;
}

/// Hash of the tree node at `level` and position `pos` over the given
/// leaves; a node whose span lies wholly beyond the leaves is taken from
/// the precomputed zero chain instead of being rehashed.
#[verifier::rlimit(60)]
#[verifier::spinoff_prover]
pub fn compute_node(leaves: &Vec<Hash256>, level: u64, pos: u64) -> (h: Hash256)
    requires
        level <= MAX_TREE_DEPTH,
        pos < pow2((MAX_TREE_DEPTH - level) as nat),
        leaves@.len() <= pow2(MAX_TREE_DEPTH as nat),
    ensures
        h == node_at(leaves@, level as nat, pos as nat),
    decreases level,
{
    let width = pow2_u64(level);
    proof {
        lemma_span_bound(level as nat, pos as nat);
        assert(pos as nat * (width as nat) == pos as nat * pow2(level as nat));
    }
    let start: u64 = pos * width;
    proof {
        assert(start as nat == pos as nat * pow2(level as nat));
    }
    if start >= (leaves.len() as u64) {
        proof {
            lemma_node_at_zero(leaves@, level as nat, pos as nat);
        }
        zero_subtree_hash(level)
    } else if level == 0 {
        proof {
            assert(width == 1);
            assert(pos < leaves@.len());
        }
        leaves[pos as usize]
    } else {
        proof {
            lemma_pow2_adds((MAX_TREE_DEPTH - level) as nat, 1);
            lemma_pow2_le((MAX_TREE_DEPTH - level + 1) as nat, MAX_TREE_DEPTH as nat);
            lemma2_to64();
        }
        let left = compute_node(leaves, level - 1, 2 * pos);
        let right = compute_node(leaves, level - 1, 2 * pos + 1);
        node_hash(&left, &right)
    }
}

/// Hash every log of a batch into its leaf value, in emission order.
pub fn hash_leaves(logs: &Vec<L2ToL1Log>) -> (r: Vec<Hash256>)
    ensures
        r@ == leaf_hashes(logs@),
{
    let mut r: Vec<Hash256> = Vec::new();
    let mut i: usize = 0;
    while i < logs.len()
        invariant
            i <= logs@.len(),
            r@ == leaf_hashes(logs@).take(i as int),
        decreases logs@.len() - i,
    {
        r.push(leaf_hash(&logs[i]));
        proof {
            assert(leaf_hashes(logs@).take(i + 1) =~= leaf_hashes(logs@).take(i as int).push(
                leaf_hashes(logs@)[i as int],
            ));
        }
        i = i + 1;
    }
    proof {
        assert(leaf_hashes(logs@).take(logs@.len() as int) =~= leaf_hashes(logs@));
    }
    r
}

/// Build the batch commitment: the root of the depth-`depth` tree over
/// the leaf hashes of `logs`, padded with zero leaves. The root is a pure
/// function of the log sequence and the depth, so rebuilding from the same
/// logs always gives the same root.
pub fn build(logs: &Vec<L2ToL1Log>, depth: u64) -> (root: Hash256)
    requires
        depth <= MAX_TREE_DEPTH,
        logs@.len() <= pow2(depth as nat),
    ensures
        root == batch_root(logs@, depth as nat),
{
    let leaves = hash_leaves(logs);
    proof {
        lemma_pow2_le(depth as nat, MAX_TREE_DEPTH as nat);
        lemma_pow2_pos((MAX_TREE_DEPTH - depth) as nat);
    }
    compute_node(&leaves, depth, 0)
}

/// Recompute a root from a leaf value, its index, and a sibling path in
/// leaf-to-root order. Matching the committed root confirms membership.
pub fn verify_proof(leaf: &Hash256, index: u64, path: &Vec<Hash256>) -> (r: Hash256)
    ensures
        r == climb(*leaf, index as nat, path@),
{
    let mut acc: Hash256 = *leaf;
    let mut cur: u64 = index;
    let mut l: usize = 0;
    proof {
        lemma2_to64();
    }
    while l < path.len()
        invariant
            l <= path@.len(),
            acc == climb(*leaf, index as nat, path@.take(l as int)),
            cur as nat == (index as nat) / pow2(l as nat),
        decreases path@.len() - l,
    {
        let sib = path[l];
        let next = if cur % 2 == 0 {
            node_hash(&acc, &sib)
        } else {
            node_hash(&sib, &acc)
        };
        proof {
            assert(path@.take(l + 1) =~= path@.take(l as int).push(path@[l as int]));
            lemma_climb_push(*leaf, index as nat, path@.take(l as int), path@[l as int]);
            lemma_pow2_pos(l as nat);
            lemma_div_denominator(index as int, pow2(l as nat) as int, 2);
            lemma_pow2_adds(l as nat, 1);
            lemma2_to64();
        }
        acc = next;
        cur = cur / 2;
        l = l + 1;
    }
    proof {
        assert(path@.take(path@.len() as int) =~= path@);
    }
    acc
}

/// Produce the inclusion proof for the log at `index`: the committed
/// root, the sibling path in leaf-to-root order, and the index itself.
/// The returned path always recomputes the returned root.
pub fn prove_at(logs: &Vec<L2ToL1Log>, depth: u64, index: usize) -> (r: Result<
    LogProof,
    ProofError,
>)
    requires
        depth <= MAX_TREE_DEPTH,
        logs@.len() <= pow2(depth as nat),
    ensures
        logs@.len() == 0 ==> (r matches Err(e) && e == ProofError::BatchEmpty),
        logs@.len() > 0 && index >= logs@.len() ==> (r matches Err(e) && e
            == ProofError::IndexOutOfRange),
        index < logs@.len() ==> (r matches Ok(p) && p.root == batch_root(logs@, depth as nat)
            && p.index == index && p.path@ == proof_path(
            leaf_hashes(logs@),
            depth as nat,
            index as nat,
        ) && p.path@.len() == depth && climb(
            spec_leaf_hash(logs@[index as int]),
            index as nat,
            p.path@,
        ) == p.root),
{
    if logs.len() == 0 {
        return Err(ProofError::BatchEmpty);
    }
    if index >= logs.len() {
        return Err(ProofError::IndexOutOfRange);
    }
    let leaves = hash_leaves(logs);
    proof {
        lemma_pow2_le(depth as nat, MAX_TREE_DEPTH as nat);
        lemma_pow2_pos((MAX_TREE_DEPTH - depth) as nat);
        lemma2_to64();
    }
    let root = compute_node(&leaves, depth, 0);
    let mut path: Vec<Hash256> = Vec::new();
    let mut cur: u64 = index as u64;
    let mut l: u64 = 0;
    while l < depth
        invariant
            l <= depth,
            depth <= MAX_TREE_DEPTH,
            leaves@ == leaf_hashes(logs@),
            leaves@.len() == logs@.len(),
            logs@.len() <= pow2(depth as nat),
            index < logs@.len(),
            cur as nat == (index as nat) / pow2(l as nat),
            (cur as nat) < pow2((depth - l) as nat),
            path@ == proof_path(leaves@, depth as nat, index as nat).take(l as int),
            path@.len() == l,
        decreases depth - l,
    {
        let ghost full = proof_path(leaves@, depth as nat, index as nat);
        proof {
            lemma2_to64();
            lemma_pow2_pos(l as nat);
            lemma_pow2_adds((depth - l - 1) as nat, 1);
            lemma_pow2_le((depth - l) as nat, (MAX_TREE_DEPTH - l) as nat);
        }
        let sib_pos: u64 = if cur % 2 == 0 {
            cur + 1
        } else {
            cur - 1
        };
        proof {
            // the sibling position still lies inside the level: the level's
            // width is even, so an even `cur` is at most width - 2
            assert(sib_pos < pow2((depth - l) as nat));
        }
        let sib = compute_node(&leaves, l, sib_pos);
        path.push(sib);
        proof {
            assert(full[l as int] == node_at(
                leaves@,
                l as nat,
                sibling_pos((index as nat) / pow2(l as nat)),
            ));
            assert(full.take(l + 1) =~= full.take(l as int).push(full[l as int]));
            lemma_div_denominator(index as int, pow2(l as nat) as int, 2);
            lemma_pow2_adds(l as nat, 1);
        }
        cur = cur / 2;
        l = l + 1;
    }
    proof {
        assert(proof_path(leaves@, depth as nat, index as nat).take(depth as int) =~= proof_path(
            leaves@,
            depth as nat,
            index as nat,
        ));
        lemma_merkle_round_trip(leaves@, depth as nat, index as nat);
    }
    Ok(LogProof { root, path, index: index as u32 })
}

} // verus!
