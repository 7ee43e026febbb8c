use zks_core::hashing::leaf_hash;
use zks_core::merkle::build;
use zks_core::proofs::msg_log_proof;
use zks_core::proofs::resolve_log_index;
use zks_core::proofs::select_tx_log;
use zks_core::proofs::tx_log_proof;
use zks_core::merkle::verify_proof;
use zks_core::types::Address;
use zks_core::types::Hash256;
use zks_core::types::L2ToL1Log;
use zks_core::types::ProofError;

fn hash(n: u64) -> Hash256 {
    Hash256 { w0: n, w1: 0, w2: 0, w3: n }
}

fn addr(n: u64) -> Address {
    Address { w0: n, w1: 0, w2: n }
}

fn log_from(sender: Address, value: Hash256, tag: u16) -> L2ToL1Log {
    L2ToL1Log {
        shard_id: 0,
        is_service: true,
        tx_number_in_block: tag,
        sender,
        key: hash(900 + tag as u64),
        value,
    }
}

#[test]
fn ambiguous_without_position_distinct_proofs_with() {
    let sender = addr(5);
    let msg = hash(77);
    // two logs from the same sender matching the same message
    let logs = vec![
        log_from(addr(1), hash(3), 0),
        log_from(sender, msg, 1),
        log_from(addr(2), hash(4), 2),
        log_from(sender, msg, 3),
    ];
    let root = build(&logs, 3);

    assert_eq!(msg_log_proof(&logs, 3, sender, msg, None), Err(ProofError::AmbiguousLog));

    let first = msg_log_proof(&logs, 3, sender, msg, Some(0)).unwrap().unwrap();
    let second = msg_log_proof(&logs, 3, sender, msg, Some(1)).unwrap().unwrap();
    assert_eq!(first.index, 1);
    assert_eq!(second.index, 3);
    assert_ne!(first.path, second.path);
    // both proofs are individually valid against the same root
    assert_eq!(first.root, root);
    assert_eq!(second.root, root);
    assert_eq!(verify_proof(&leaf_hash(&logs[1]), 1, &first.path), root);
    assert_eq!(verify_proof(&leaf_hash(&logs[3]), 3, &second.path), root);
}

#[test]
fn absence_is_none_not_an_error() {
    let logs = vec![log_from(addr(1), hash(3), 0)];
    // no log matches: absence
    assert_eq!(resolve_log_index(&logs, addr(9), hash(9), None), Ok(None));
    // a position beyond the matches: absence
    assert_eq!(resolve_log_index(&logs, addr(1), hash(3), Some(1)), Ok(None));
    assert_eq!(msg_log_proof(&logs, 3, addr(9), hash(9), None), Ok(None));
}

#[test]
fn unique_match_resolves_without_position() {
    let sender = addr(5);
    let msg = hash(77);
    let logs = vec![
        log_from(addr(1), hash(3), 0),
        log_from(sender, msg, 1),
        log_from(sender, hash(3), 2),
    ];
    assert_eq!(resolve_log_index(&logs, sender, msg, None), Ok(Some(1)));
    let proof = msg_log_proof(&logs, 2, sender, msg, None).unwrap().unwrap();
    assert_eq!(proof.index, 1);
    assert_eq!(verify_proof(&leaf_hash(&logs[1]), 1, &proof.path), build(&logs, 2));
}

#[test]
fn select_among_transaction_logs() {
    let positions = vec![4usize, 9, 11];
    assert_eq!(select_tx_log(&positions, Some(1)), Ok(Some(9)));
    assert_eq!(select_tx_log(&positions, Some(3)), Ok(None));
    assert_eq!(select_tx_log(&positions, None), Err(ProofError::AmbiguousLog));
    let single = vec![6usize];
    assert_eq!(select_tx_log(&single, None), Ok(Some(6)));
    let none: Vec<usize> = Vec::new();
    assert_eq!(select_tx_log(&none, None), Ok(None));
}

#[test]
fn transaction_log_proof_round_trip() {
    let logs = vec![
        log_from(addr(1), hash(1), 0),
        log_from(addr(2), hash(2), 1),
        log_from(addr(2), hash(3), 1),
        log_from(addr(3), hash(4), 2),
    ];
    let root = build(&logs, 3);
    // the transaction at block position 1 emitted the logs at global
    // indices 1 and 2
    let positions = vec![1usize, 2];
    let proof = tx_log_proof(&logs, 3, &positions, Some(1)).unwrap().unwrap();
    assert_eq!(proof.index, 2);
    assert_eq!(proof.root, root);
    assert_eq!(verify_proof(&leaf_hash(&logs[2]), 2, &proof.path), root);

    assert_eq!(tx_log_proof(&logs, 3, &positions, None), Err(ProofError::AmbiguousLog));
    assert_eq!(tx_log_proof(&logs, 3, &positions, Some(2)), Ok(None));
    // a malformed request whose position lies outside the batch
    let bad = vec![40usize];
    assert_eq!(tx_log_proof(&logs, 3, &bad, Some(0)), Err(ProofError::IndexOutOfRange));
}
