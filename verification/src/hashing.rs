//! Deterministic, domain-separated hashing of logs and of internal tree
//! nodes. The hash is a pure function of its input: rebuilding a tree from
//! the same log sequence gives a byte-identical root. The exact mixing
//! constants are a compatibility parameter of the surrounding system; the
//! contracts here only rely on the hash being a function of its input and
//! on the domain separation between leaves and internal nodes.

use vstd::prelude::*;

use crate::types::Hash256;
use crate::types::L2ToL1Log;

verus! {

/// Multiplier of the 64-bit mixing step.
pub const HASH_MULTIPLIER: u64 = 0x100000001b3;

/// Domain tag mixed in first when hashing a leaf (a log record).
pub const LEAF_DOMAIN: u64 = 0x4c32_4c65_6166_0001;

/// Domain tag mixed in first when hashing an internal node.
pub const NODE_DOMAIN: u64 = 0x4c32_4e6f_6465_0002;

/// One mixing step: fold `x` into the accumulator `acc`.
pub open spec fn mix(acc: u64, x: u64) -> u64 {
    ((((acc ^ x) as int) * (HASH_MULTIPLIER as int)) % 0x1_0000_0000_0000_0000) as u64
}

/// Fold all four limbs of a hash into the accumulator.
pub open spec fn mix_hash(acc: u64, h: Hash256) -> u64 {
    mix(mix(mix(mix(acc, h.w0), h.w1), h.w2), h.w3)
}

/// Expand a finished accumulator into the four limbs of an output hash.
pub open spec fn spread(acc: u64) -> Hash256 {
    Hash256 { w0: mix(acc, 1), w1: mix(acc, 2), w2: mix(acc, 3), w3: mix(acc, 4) }
}

/// Leaf hash of one log record: a domain-separated fold over every field,
/// in the order of the record's serialized form.
pub open spec fn spec_leaf_hash(log: L2ToL1Log) -> Hash256 {
    spread(
        mix_hash(
            mix_hash(
                mix(
                    mix(
                        mix(
                            mix(
                                mix(LEAF_DOMAIN, log.shard_id as u64),
                                if log.is_service { 1u64 } else { 0u64 },
                            ),
                            log.tx_number_in_block as u64,
                        ),
                        log.sender.w0,
                    ),
                    mix(log.sender.w1, log.sender.w2),
                ),
                log.key,
            ),
            log.value,
        ),
    )
}

/// Internal node hash: domain-separated fold of the left child before the
/// right child, so the two sides are not interchangeable.
pub open spec fn spec_node_hash(left: Hash256, right: Hash256) -> Hash256 {
    spread(mix_hash(mix_hash(NODE_DOMAIN, left), right))
}

/// The canonical zero leaf that pads a batch's log sequence up to the
/// tree's capacity.
pub open spec fn zero_leaf() -> Hash256 {
    Hash256 { w0: 0, w1: 0, w2: 0, w3: 0 }
}

/// One executable mixing step.
pub fn mix64(acc: u64, x: u64) -> (r: u64)
    ensures
        r == mix(acc, x),
{
    let v: u64 = acc ^ x;
    proof {
        assert((v as u128) * (HASH_MULTIPLIER as u128) <= (u64::MAX as u128) * (
        HASH_MULTIPLIER as u128)) by (nonlinear_arith)
            requires
                v as u128 <= u64::MAX as u128,
        ;
    }
    let wide: u128 = (v as u128) * (HASH_MULTIPLIER as u128);
    (wide % 0x1_0000_0000_0000_0000u128) as u64
}

/// Executable fold of a hash's limbs.
pub fn mix_hash64(acc: u64, h: &Hash256) -> (r: u64)
    ensures
        r == mix_hash(acc, *h),
{
    mix64(mix64(mix64(mix64(acc, h.w0), h.w1), h.w2), h.w3)
}

/// Executable expansion of a finished accumulator.
pub fn spread64(acc: u64) -> (r: Hash256)
    ensures
        r == spread(acc),
{
    Hash256 { w0: mix64(acc, 1), w1: mix64(acc, 2), w2: mix64(acc, 3), w3: mix64(acc, 4) }
}

/// Hash one log record into its leaf value.
pub fn leaf_hash(log: &L2ToL1Log) -> (r: Hash256)
    ensures
        r == spec_leaf_hash(*log),
{
    let mut acc: u64 = mix64(LEAF_DOMAIN, log.shard_id as u64);
    acc = mix64(acc, if log.is_service { 1u64 } else { 0u64 });
    acc = mix64(acc, log.tx_number_in_block as u64);
    acc = mix64(acc, log.sender.w0);
    acc = mix64(acc, mix64(log.sender.w1, log.sender.w2));
    acc = mix_hash64(acc, &log.key);
    acc = mix_hash64(acc, &log.value);
    spread64(acc)
}

/// Hash two child hashes into their parent; the order of the children
/// matters.
pub fn node_hash(left: &Hash256, right: &Hash256) -> (r: Hash256)
    ensures
        r == spec_node_hash(*left, *right),
{
    spread64(mix_hash64(mix_hash64(NODE_DOMAIN, left), right))
}

/// The canonical zero-leaf value.
pub fn zero_leaf_value() -> (r: Hash256)
    ensures
        r == zero_leaf(),
{
    Hash256 { w0: 0, w1: 0, w2: 0, w3: 0 }
}

} // verus!
