use blutgang::health::head_cache::CacheWatch;
use blutgang::database::types::BatchOp;
use blutgang::health::head_cache::{handle_reorg, remove_stale};
use std::collections::BTreeMap;

#[test]
fn test_handle_reorg() {
    let mut head_cache: BTreeMap<u64, Vec<String>> = BTreeMap::new();
    head_cache.insert(1, vec!["key1".to_string()]);
    head_cache.insert(2, vec!["key2".to_string()]);
    head_cache.insert(3, vec!["key3".to_string()]);

    let batch = handle_reorg(&mut head_cache, 2, 3);

    assert!(head_cache.contains_key(&1));
    assert!(!head_cache.contains_key(&2));
    assert!(!head_cache.contains_key(&3));

    // The keys of blocks 2 and 3 are deleted from the cache, key1 is kept.
    let deleted: Vec<String> = batch
        .into_ops()
        .into_iter()
        .map(|op| match op {
            BatchOp::Delete(k) => k,
            BatchOp::Insert(k, _) => panic!("unexpected insert of {}", k),
        })
        .collect();
    assert_eq!(deleted, vec!["key2".to_string(), "key3".to_string()]);
}

#[test]
fn test_remove_stale() {
    let mut head_cache: BTreeMap<u64, Vec<String>> = BTreeMap::new();
    head_cache.insert(1, vec!["key1".to_string()]);
    head_cache.insert(2, vec!["key2".to_string()]);

    remove_stale(&mut head_cache, 1);

    assert!(!head_cache.contains_key(&1));
    assert!(!head_cache.contains_key(&2));
}

#[test]
fn remove_stale_keeps_blocks_past_the_next_one() {
    let mut head_cache: BTreeMap<u64, Vec<String>> = BTreeMap::new();
    for b in [5u64, 6, 7, 8] {
        head_cache.insert(b, vec![format!("k{}", b)]);
    }
    remove_stale(&mut head_cache, 6);
    assert_eq!(head_cache.keys().copied().collect::<Vec<u64>>(), vec![8]);
    let mut empty: BTreeMap<u64, Vec<String>> = BTreeMap::new();
    remove_stale(&mut empty, 3);
    assert!(empty.is_empty());
}

#[test]
fn reorg_of_a_single_block() {
    let mut head_cache: BTreeMap<u64, Vec<String>> = BTreeMap::new();
    head_cache.insert(4, vec!["a".to_string(), "b".to_string()]);
    head_cache.insert(5, vec!["c".to_string()]);
    let batch = handle_reorg(&mut head_cache, 4, 4);
    let ops = batch.into_ops();
    assert_eq!(ops.len(), 2);
    assert!(head_cache.contains_key(&5));
    assert!(!head_cache.contains_key(&4));
    // A reorg back to an earlier block than the last one touches nothing.
    let batch = handle_reorg(&mut head_cache, 5, 3);
    assert!(batch.into_ops().is_empty());
    assert!(head_cache.contains_key(&5));
}

#[test]
fn upkeep_follows_new_blocks() {
    let mut head_cache: BTreeMap<u64, Vec<String>> = BTreeMap::new();
    head_cache.insert(10, vec!["a".to_string()]);
    head_cache.insert(11, vec!["b".to_string()]);
    head_cache.insert(12, vec!["c".to_string()]);
    let mut watch = CacheWatch::new();
    // A first block: no reorg, a new finalized block takes blocks up to 11 out.
    let batch = watch.on_new_block(&mut head_cache, 12, 10);
    assert!(batch.into_ops().is_empty());
    assert_eq!(head_cache.keys().copied().collect::<Vec<u64>>(), vec![12]);
    assert_eq!(watch, CacheWatch { block_number: 12, last_finalized: 10 });
    // The same block again is a reorg of it: its keys are deleted.
    let batch = watch.on_new_block(&mut head_cache, 12, 10);
    let ops = batch.into_ops();
    assert_eq!(ops.len(), 1);
    assert!(matches!(&ops[0], BatchOp::Delete(k) if k == "c"));
    assert!(head_cache.is_empty());
}

#[test]
fn reorgs_delete_hashed_keys() {
    let mut head_cache: BTreeMap<u64, Vec<[u8; 32]>> = BTreeMap::new();
    head_cache.insert(7, vec![[1u8; 32], [2u8; 32]]);
    head_cache.insert(9, vec![[3u8; 32]]);
    let batch = handle_reorg(&mut head_cache, 7, 8);
    let deleted: Vec<[u8; 32]> = batch
        .into_ops()
        .into_iter()
        .map(|op| match op {
            BatchOp::Delete(k) => k,
            BatchOp::Insert(..) => panic!("a reorg only deletes"),
        })
        .collect();
    assert_eq!(deleted, vec![[1u8; 32], [2u8; 32]]);
    assert_eq!(head_cache.keys().copied().collect::<Vec<u64>>(), vec![9]);
}
