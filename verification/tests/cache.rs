use zks_core::cache::RootCache;
use zks_core::merkle::build;
use zks_core::types::Address;
use zks_core::types::Hash256;
use zks_core::types::L1BatchNumber;
use zks_core::types::L2ToL1Log;

fn log(tag: u64) -> L2ToL1Log {
    L2ToL1Log {
        shard_id: 1,
        is_service: false,
        tx_number_in_block: tag as u16,
        sender: Address { w0: tag, w1: 0, w2: tag },
        key: Hash256 { w0: tag, w1: tag, w2: 0, w3: 0 },
        value: Hash256 { w0: 0, w1: 0, w2: tag, w3: tag },
    }
}

#[test]
fn cache_returns_the_batch_commitment() {
    let logs = vec![log(1), log(2), log(3)];
    let mut cache = RootCache::new(3);
    let root = cache.get_or_build(L1BatchNumber { value: 7 }, &logs);
    assert_eq!(root, build(&logs, 3));
}

#[test]
fn cache_is_populated_at_most_once() {
    let logs = vec![log(1), log(2)];
    let mut cache = RootCache::new(4);
    let batch = L1BatchNumber { value: 12 };
    let first = cache.get_or_build(batch, &logs);
    // a settled batch is immutable: the cached root is served again and
    // never rebuilt, even if the caller hands other logs for the same key
    let second = cache.get_or_build(batch, &logs);
    assert_eq!(first, second);
    let hit = cache.get_or_build(batch, &vec![log(9)]);
    assert_eq!(hit, first);
    // a different batch gets its own commitment
    let other = cache.get_or_build(L1BatchNumber { value: 13 }, &vec![log(9)]);
    assert_eq!(other, build(&vec![log(9)], 4));
    assert_ne!(other, first);
}
