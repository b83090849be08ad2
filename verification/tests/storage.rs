use traversal_engine::error::Error;
use traversal_engine::memory::{memory_adapter, MemoryEngine};
use traversal_engine::storage::{
    DatastoreAdapter, SimpleTransaction, StorageAdapter, StorageAdapterName, StorageVariant,
    TransactionStatus,
};

#[test]
fn adapter_keeps_what_it_is_given() {
    let adapter = StorageAdapter::new(
        StorageAdapterName::RocksDB,
        "/var/lib/graph".to_string(),
        7u8,
        StorageVariant::KeyValueStore,
    )
    .unwrap();
    assert_eq!(adapter.name, StorageAdapterName::RocksDB);
    assert_eq!(adapter.path, "/var/lib/graph");
    assert_eq!(adapter.db_instance, 7u8);
    assert_eq!(adapter.variant, StorageVariant::KeyValueStore);
}

#[test]
fn memory_adapter_identity() {
    let adapter = memory_adapter("/data/graph".to_string());
    assert_eq!(adapter.path(), "/data/graph");
    assert_eq!(adapter.name, StorageAdapterName::EchoDB);
    assert_eq!(adapter.variant, StorageVariant::KeyValueStore);
    assert_eq!(adapter.db_instance.len(), 0);
}

#[test]
fn adapter_over_given_engine() {
    let adapter = StorageAdapter::new(
        StorageAdapterName::EchoDB,
        "/m".to_string(),
        MemoryEngine::new(),
        StorageVariant::KeyValueStore,
    )
    .unwrap();
    let tx = adapter.transaction(false).unwrap();
    assert_eq!(tx.scan(), Ok(vec![]));
}

#[test]
fn transaction_reads_its_own_writes() {
    let mut store = memory_adapter("/m".to_string());
    let mut tx = store.transaction(true).unwrap();
    assert_eq!(tx.get(5), Ok(None));
    assert_eq!(tx.put(5, vec![1, 2]), Ok(()));
    assert_eq!(tx.put(2, vec![9]), Ok(()));
    assert_eq!(tx.put(8, vec![]), Ok(()));
    assert_eq!(tx.get(5), Ok(Some(vec![1, 2])));
    assert_eq!(tx.scan(), Ok(vec![(2, vec![9]), (5, vec![1, 2]), (8, vec![])]));
    assert_eq!(tx.put(5, vec![3]), Ok(()));
    assert_eq!(tx.delete(2), Ok(()));
    assert_eq!(tx.delete(77), Ok(()));
    assert_eq!(tx.scan(), Ok(vec![(5, vec![3]), (8, vec![])]));
    assert_eq!(store.db_instance.len(), 0);
    assert_eq!(store.commit(&mut tx), Ok(()));
    assert_eq!(tx.state(), TransactionStatus::Committed);
    assert_eq!(store.db_instance.len(), 2);
    let reader = store.transaction(false).unwrap();
    assert_eq!(reader.scan(), Ok(vec![(5, vec![3]), (8, vec![])]));
}

#[test]
fn read_only_transaction_refuses_writes() {
    let store = memory_adapter("/m".to_string());
    let mut tx = store.transaction(false).unwrap();
    assert_eq!(tx.put(1, vec![1]), Err(Error::TransactionReadOnly));
    assert_eq!(tx.delete(1), Err(Error::TransactionReadOnly));
    assert_eq!(tx.get(1), Ok(None));
    assert!(tx.is_open());
}

#[test]
fn closed_transaction_refuses_everything() {
    let mut store = memory_adapter("/m".to_string());
    let mut tx = store.transaction(true).unwrap();
    assert_eq!(tx.put(1, vec![1]), Ok(()));
    assert_eq!(store.commit(&mut tx), Ok(()));
    assert!(!tx.is_open());
    assert_eq!(tx.get(1), Err(Error::TransactionStateError));
    assert_eq!(tx.scan(), Err(Error::TransactionStateError));
    assert_eq!(tx.put(1, vec![2]), Err(Error::TransactionStateError));
    assert_eq!(tx.delete(1), Err(Error::TransactionStateError));
    assert_eq!(tx.rollback(), Err(Error::TransactionStateError));
    assert_eq!(store.commit(&mut tx), Err(Error::TransactionStateError));
    assert_eq!(tx.state(), TransactionStatus::Committed);
}

#[test]
fn rollback_discards_writes() {
    let mut store = memory_adapter("/m".to_string());
    let mut tx = store.transaction(true).unwrap();
    assert_eq!(tx.put(1, vec![1]), Ok(()));
    assert_eq!(tx.rollback(), Ok(()));
    assert_eq!(tx.state(), TransactionStatus::RolledBack);
    assert_eq!(tx.rollback(), Err(Error::TransactionStateError));
    assert_eq!(store.commit(&mut tx), Err(Error::TransactionStateError));
    assert_eq!(store.db_instance.len(), 0);
}

#[test]
fn disjoint_transactions_both_commit() {
    let mut store = memory_adapter("/m".to_string());
    let mut first = store.transaction(true).unwrap();
    let mut second = store.transaction(true).unwrap();
    assert_eq!(first.put(1, vec![1]), Ok(()));
    assert_eq!(second.put(2, vec![2]), Ok(()));
    assert_eq!(store.commit(&mut first), Ok(()));
    assert_eq!(store.commit(&mut second), Ok(()));
    let reader = store.transaction(false).unwrap();
    assert_eq!(reader.scan(), Ok(vec![(1, vec![1]), (2, vec![2])]));
}

#[test]
fn conflicting_commit_is_refused() {
    let mut store = memory_adapter("/m".to_string());
    let mut first = store.transaction(true).unwrap();
    let mut second = store.transaction(true).unwrap();
    assert_eq!(first.put(1, vec![1]), Ok(()));
    assert_eq!(second.put(1, vec![2]), Ok(()));
    assert_eq!(second.put(3, vec![3]), Ok(()));
    assert_eq!(store.commit(&mut first), Ok(()));
    assert_eq!(store.commit(&mut second), Err(Error::StorageConflict));
    assert_eq!(second.state(), TransactionStatus::RolledBack);
    let reader = store.transaction(false).unwrap();
    assert_eq!(reader.scan(), Ok(vec![(1, vec![1])]));

    let mut retry = store.transaction(true).unwrap();
    assert_eq!(retry.put(1, vec![2]), Ok(()));
    assert_eq!(store.commit(&mut retry), Ok(()));
    let reader = store.transaction(false).unwrap();
    assert_eq!(reader.get(1), Ok(Some(vec![2])));
}

#[test]
fn delete_conflicts_with_concurrent_change() {
    let mut store = memory_adapter("/m".to_string());
    let mut seed = store.transaction(true).unwrap();
    seed.put(4, vec![4]).unwrap();
    store.commit(&mut seed).unwrap();
    let mut deleter = store.transaction(true).unwrap();
    let mut writer = store.transaction(true).unwrap();
    assert_eq!(deleter.delete(4), Ok(()));
    assert_eq!(writer.put(4, vec![5]), Ok(()));
    assert_eq!(store.commit(&mut deleter), Ok(()));
    assert_eq!(store.db_instance.len(), 0);
    assert_eq!(store.commit(&mut writer), Err(Error::StorageConflict));
    assert_eq!(store.db_instance.len(), 0);
}

#[test]
fn snapshot_is_not_moved_by_later_commits() {
    let mut store = memory_adapter("/m".to_string());
    let reader = store.transaction(false).unwrap();
    let mut writer = store.transaction(true).unwrap();
    writer.put(1, vec![1]).unwrap();
    store.commit(&mut writer).unwrap();
    assert_eq!(reader.get(1), Ok(None));
}

#[test]
fn engine_from_entries_wants_ascending_keys() {
    let entries = vec![(-2, vec![1]), (0, vec![]), (5, vec![2, 3])];
    let engine = MemoryEngine::from_entries(entries.clone()).unwrap();
    assert_eq!(engine.len(), 3);
    assert_eq!(engine.entries(), entries);
    assert!(MemoryEngine::from_entries(vec![]).is_some());
    assert!(MemoryEngine::from_entries(vec![(1, vec![])]).is_some());
    assert!(MemoryEngine::from_entries(vec![(1, vec![]), (1, vec![])]).is_none());
    assert!(MemoryEngine::from_entries(vec![(2, vec![]), (1, vec![])]).is_none());
    assert!(MemoryEngine::from_entries(vec![(1, vec![]), (3, vec![]), (2, vec![])]).is_none());
}

#[test]
fn engine_entries_follow_commits() {
    let mut store = memory_adapter("/m".to_string());
    let mut tx = store.transaction(true).unwrap();
    tx.put(3, vec![3]).unwrap();
    tx.put(1, vec![1]).unwrap();
    store.commit(&mut tx).unwrap();
    assert_eq!(store.db_instance.entries(), vec![(1, vec![1]), (3, vec![3])]);
}
