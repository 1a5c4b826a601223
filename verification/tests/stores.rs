use langchain_core::stores::InMemoryStore;

#[test]
fn test_in_memory_store_mset_mget() {
    let store = InMemoryStore::new();
    store.mset(vec![("a".to_string(), 1), ("b".to_string(), 2)]);
    let results = store.mget(&vec!["a".to_string(), "b".to_string(), "c".to_string()]);
    assert_eq!(results[0], Some(1));
    assert_eq!(results[1], Some(2));
    assert_eq!(results[2], None);
}

#[test]
fn test_in_memory_store_mdelete() {
    let store = InMemoryStore::new();
    store.mset(vec![("x".to_string(), "val".to_string())]);
    store.mdelete(&vec!["x".to_string()]);
    let results = store.mget(&vec!["x".to_string()]);
    assert!(results[0].is_none());
}

#[test]
fn test_in_memory_store_yield_keys() {
    let store = InMemoryStore::new();
    store.mset(vec![("k1".to_string(), 1), ("k2".to_string(), 2)]);
    let mut keys = store.yield_keys();
    keys.sort();
    assert_eq!(keys, vec!["k1".to_string(), "k2".to_string()]);
}

#[test]
fn test_in_memory_store_empty() {
    let store: InMemoryStore<String, String> = InMemoryStore::new();
    let keys = store.yield_keys();
    assert!(keys.is_empty());
}

#[test]
fn test_in_memory_store_overwrite() {
    let store = InMemoryStore::new();
    store.mset(vec![("k".to_string(), "v1".to_string())]);
    store.mset(vec![("k".to_string(), "v2".to_string())]);
    let results = store.mget(&vec!["k".to_string()]);
    assert_eq!(results[0], Some("v2".to_string()));
}

#[test]
fn test_in_memory_store_default_empty() {
    let store: InMemoryStore<i32, i32> = InMemoryStore::default();
    let keys = store.yield_keys();
    assert!(keys.is_empty());
}

#[test]
fn test_in_memory_store_send_sync() {
    fn assert_send<T: Send>() {}
    fn assert_sync<T: Sync>() {}
    assert_send::<InMemoryStore<String, String>>();
    assert_sync::<InMemoryStore<String, String>>();
}

#[test]
fn in_memory_store_later_pair_wins_and_clones_share() {
    let store = InMemoryStore::new();
    store.mset(vec![("k".to_string(), 1), ("k".to_string(), 2)]);
    let other = store.clone();
    assert_eq!(other.mget(&vec!["k".to_string()]), vec![Some(2)]);
    other.mdelete(&vec!["k".to_string()]);
    assert_eq!(store.mget(&vec!["k".to_string()]), vec![None]);
}
