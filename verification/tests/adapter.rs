//! Contract tests at the byte level: round trip, absence, overwrite, no-op
//! remove, batch atomicity, length validation, category isolation, and
//! backend determinism on the in-memory adapter.

use chain_storage::adapter::memory::MemoryAdapter;
use chain_storage::adapter::{StorageAdapter, StorageBatchModify};
use chain_storage::category::StorageCategory;

#[test]
fn adapter_insert_then_get_round_trip() {
    let mut a = MemoryAdapter::new();
    a.insert(StorageCategory::Block, vec![1, 2, 3], vec![9, 9])
        .unwrap();
    let got = a.get(StorageCategory::Block, &vec![1, 2, 3]).unwrap();
    assert_eq!(Some(vec![9, 9]), got);
    assert!(a.contains(StorageCategory::Block, &vec![1, 2, 3]).unwrap());
}

#[test]
fn adapter_get_absent_is_none_not_error() {
    let a = MemoryAdapter::new();
    let got = a.get(StorageCategory::Receipt, &vec![5, 5, 5]).unwrap();
    assert_eq!(None, got);
    assert!(!a.contains(StorageCategory::Receipt, &vec![5, 5, 5]).unwrap());
}

#[test]
fn adapter_get_removed_key_is_none() {
    let mut a = MemoryAdapter::new();
    a.insert(StorageCategory::Wal, vec![1], vec![2]).unwrap();
    a.remove(StorageCategory::Wal, &vec![1]).unwrap();
    assert_eq!(None, a.get(StorageCategory::Wal, &vec![1]).unwrap());
}

#[test]
fn adapter_insert_overwrites_idempotently() {
    let mut a = MemoryAdapter::new();
    a.insert(StorageCategory::Block, vec![7], vec![1]).unwrap();
    a.insert(StorageCategory::Block, vec![7], vec![2]).unwrap();
    assert_eq!(
        Some(vec![2]),
        a.get(StorageCategory::Block, &vec![7]).unwrap()
    );
}

#[test]
fn adapter_remove_absent_is_noop() {
    let mut a = MemoryAdapter::new();
    a.insert(StorageCategory::Block, vec![1], vec![1]).unwrap();
    a.remove(StorageCategory::Block, &vec![2]).unwrap();
    // The store is unchanged: the present key is still there, the absent
    // one still absent.
    assert_eq!(
        Some(vec![1]),
        a.get(StorageCategory::Block, &vec![1]).unwrap()
    );
    assert_eq!(None, a.get(StorageCategory::Block, &vec![2]).unwrap());
}

#[test]
fn adapter_batch_length_mismatch_rejected_with_zero_writes() {
    let mut a = MemoryAdapter::new();
    let keys = vec![vec![1], vec![2]];
    let muts = vec![StorageBatchModify::Insert(vec![9])];
    let r = a.batch_modify(StorageCategory::Block, keys, muts);
    assert!(matches!(
        r,
        Err(chain_storage::errors::StorageError::BatchLengthMismatch)
    ));
    assert_eq!(None, a.get(StorageCategory::Block, &vec![1]).unwrap());
    assert_eq!(None, a.get(StorageCategory::Block, &vec![2]).unwrap());
}

#[test]
fn adapter_batch_of_inserts_and_removes_all_land() {
    let mut a = MemoryAdapter::new();
    // Five keys that the batch will remove again, pre-seeded.
    for k in 0..5u8 {
        a.insert(StorageCategory::Block, vec![100 + k], vec![k])
            .unwrap();
    }
    let mut keys = Vec::new();
    let mut muts = Vec::new();
    for k in 0..5u8 {
        keys.push(vec![k]);
        muts.push(StorageBatchModify::Insert(vec![k, k]));
    }
    for k in 0..5u8 {
        keys.push(vec![100 + k]);
        muts.push(StorageBatchModify::Remove);
    }
    a.batch_modify(StorageCategory::Block, keys, muts).unwrap();
    for k in 0..5u8 {
        assert_eq!(
            Some(vec![k, k]),
            a.get(StorageCategory::Block, &vec![k]).unwrap()
        );
        assert_eq!(None, a.get(StorageCategory::Block, &vec![100 + k]).unwrap());
    }
}

#[test]
fn adapter_batch_applies_in_caller_order() {
    let mut a = MemoryAdapter::new();
    let keys = vec![vec![1], vec![1], vec![1]];
    let muts = vec![
        StorageBatchModify::Insert(vec![1]),
        StorageBatchModify::Insert(vec![2]),
        StorageBatchModify::Remove,
    ];
    a.batch_modify(StorageCategory::Block, keys, muts).unwrap();
    assert_eq!(None, a.get(StorageCategory::Block, &vec![1]).unwrap());
}

#[test]
fn adapter_categories_are_isolated() {
    let mut a = MemoryAdapter::new();
    let key = vec![42, 42];
    a.insert(StorageCategory::Block, key.clone(), vec![1])
        .unwrap();
    a.insert(StorageCategory::Receipt, key.clone(), vec![2])
        .unwrap();
    assert_eq!(Some(vec![1]), a.get(StorageCategory::Block, &key).unwrap());
    assert_eq!(
        Some(vec![2]),
        a.get(StorageCategory::Receipt, &key).unwrap()
    );
    a.remove(StorageCategory::Block, &key).unwrap();
    assert_eq!(None, a.get(StorageCategory::Block, &key).unwrap());
    assert_eq!(
        Some(vec![2]),
        a.get(StorageCategory::Receipt, &key).unwrap()
    );
    assert_eq!(
        None,
        a.get(StorageCategory::SignedTransaction, &key).unwrap()
    );
    assert_eq!(None, a.get(StorageCategory::Wal, &key).unwrap());
}

#[test]
fn adapter_fixed_op_sequence_is_deterministic_across_instances() {
    // Two adapters fed the same operation sequence answer every read alike:
    // the contract pins the observable outcome, whatever the backend.
    let mut a1 = MemoryAdapter::new();
    let mut a2 = MemoryAdapter::new();
    for a in [&mut a1, &mut a2] {
        a.insert(StorageCategory::Block, vec![1], vec![10]).unwrap();
        a.insert(StorageCategory::Block, vec![2], vec![20]).unwrap();
        a.remove(StorageCategory::Block, &vec![1]).unwrap();
        a.batch_modify(
            StorageCategory::Block,
            vec![vec![3], vec![2]],
            vec![
                StorageBatchModify::Insert(vec![30]),
                StorageBatchModify::Remove,
            ],
        )
        .unwrap();
    }
    for k in 0..5u8 {
        assert_eq!(
            a1.get(StorageCategory::Block, &vec![k]).unwrap(),
            a2.get(StorageCategory::Block, &vec![k]).unwrap()
        );
        assert_eq!(
            a1.contains(StorageCategory::Block, &vec![k]).unwrap(),
            a2.contains(StorageCategory::Block, &vec![k]).unwrap()
        );
    }
}

#[test]
fn map_category_names_are_stable_and_distinct() {
    assert_eq!("c1", chain_storage::category::map_category(StorageCategory::Block));
    assert_eq!(
        "c2",
        chain_storage::category::map_category(StorageCategory::SignedTransaction)
    );
    assert_eq!(
        "c3",
        chain_storage::category::map_category(StorageCategory::Receipt)
    );
    assert_eq!("c4", chain_storage::category::map_category(StorageCategory::Wal));
}
