use zks_core::hashing::leaf_hash;
use zks_core::hashing::zero_leaf_value;
use zks_core::merkle::build;
use zks_core::merkle::compute_node;
use zks_core::merkle::hash_leaves;
use zks_core::merkle::prove_at;
use zks_core::merkle::verify_proof;
use zks_core::types::Address;
use zks_core::types::Hash256;
use zks_core::types::L2ToL1Log;
use zks_core::types::ProofError;

fn hash(n: u64) -> Hash256 {
    Hash256 { w0: n, w1: n + 1, w2: n + 2, w3: n + 3 }
}

fn addr(n: u64) -> Address {
    Address { w0: n, w1: n, w2: n }
}

fn log(tag: u64) -> L2ToL1Log {
    L2ToL1Log {
        shard_id: 0,
        is_service: false,
        tx_number_in_block: tag as u16,
        sender: addr(tag),
        key: hash(100 + tag),
        value: hash(200 + tag),
    }
}

#[test]
fn round_trip_all_indices() {
    let logs = vec![log(1), log(2), log(3)];
    let root = build(&logs, 3);
    for i in 0..logs.len() {
        let proof = prove_at(&logs, 3, i).unwrap();
        assert_eq!(proof.index, i as u32);
        assert_eq!(proof.path.len(), 3);
        assert_eq!(proof.root, root);
        let recomputed = verify_proof(&leaf_hash(&logs[i]), i as u64, &proof.path);
        assert_eq!(recomputed, root);
    }
}

#[test]
fn concrete_three_logs_depth_three() {
    // logs [A, B, C]: the proof at index 1 has a three-element sibling
    // path that verifies against the root of the zero-padded tree
    let logs = vec![log(10), log(11), log(12)];
    let root = build(&logs, 3);
    let proof = prove_at(&logs, 3, 1).unwrap();
    assert_eq!(proof.path.len(), 3);
    assert_eq!(verify_proof(&leaf_hash(&logs[1]), 1, &proof.path), root);

    // padding behaves exactly as an explicit zero leaf in fourth position
    let mut leaves = hash_leaves(&logs);
    leaves.push(zero_leaf_value());
    assert_eq!(compute_node(&leaves, 3, 0), root);
}

#[test]
fn order_sensitivity_swap_changes_root() {
    let logs = vec![log(1), log(2), log(3)];
    let swapped = vec![log(2), log(1), log(3)];
    assert_ne!(build(&logs, 3), build(&swapped, 3));
}

#[test]
fn determinism_same_logs_same_root() {
    let logs = vec![log(7), log(8)];
    let again = vec![log(7), log(8)];
    assert_eq!(build(&logs, 4), build(&logs, 4));
    assert_eq!(build(&logs, 4), build(&again, 4));
}

#[test]
fn empty_batch_is_an_error() {
    let logs: Vec<L2ToL1Log> = Vec::new();
    assert_eq!(prove_at(&logs, 3, 0), Err(ProofError::BatchEmpty));
}

#[test]
fn index_out_of_range_is_an_error() {
    let logs = vec![log(1), log(2)];
    assert_eq!(prove_at(&logs, 3, 2), Err(ProofError::IndexOutOfRange));
    assert_eq!(prove_at(&logs, 3, 17), Err(ProofError::IndexOutOfRange));
}

#[test]
fn wrong_leaf_does_not_verify() {
    let logs = vec![log(1), log(2), log(3), log(4)];
    let root = build(&logs, 2);
    let proof = prove_at(&logs, 2, 2).unwrap();
    assert_eq!(proof.path.len(), 2);
    assert_eq!(verify_proof(&leaf_hash(&logs[2]), 2, &proof.path), root);
    assert_ne!(verify_proof(&leaf_hash(&logs[3]), 2, &proof.path), root);
    // the same leaf at the wrong index does not verify either
    assert_ne!(verify_proof(&leaf_hash(&logs[2]), 3, &proof.path), root);
}

#[test]
fn single_log_tree() {
    let logs = vec![log(42)];
    let root = build(&logs, 1);
    let proof = prove_at(&logs, 1, 0).unwrap();
    assert_eq!(proof.path.len(), 1);
    assert_eq!(proof.path[0], zero_leaf_value());
    assert_eq!(verify_proof(&leaf_hash(&logs[0]), 0, &proof.path), root);
}
