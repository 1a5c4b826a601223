//! Key-value stores shared between clones.
//!
//! The store is a concurrent map behind a shared pointer: every clone reads
//! and writes the same entries, so what a read finds depends on every
//! holder and is not promised here. What is promised is the shape of each
//! batch operation's answer.

use std::hash::Hash;
use std::sync::Arc;
use vstd::prelude::*;

verus! {

/// A new, empty shared map (`DashMap::new`).
///
/// Claimed of the crate: nothing.
#[verifier::external_body]
fn new_map<K: Eq + Hash, V>() -> Arc<dashmap::DashMap<K, V>> {
    Arc::new(dashmap::DashMap::new())
}

/// A copy of the value under `key` (`DashMap::get`, then `Clone`).
///
/// Claimed of the crate: nothing; the contents depend on every holder.
#[verifier::external_body]
fn map_get<K: Eq + Hash, V: Clone>(m: &dashmap::DashMap<K, V>, key: &K) -> Option<V> {
    m.get(key).map(|v| v.value().clone())
}

/// Stores `value` under `key` (`DashMap::insert`).
///
/// Claimed of the crate: nothing.
#[verifier::external_body]
fn map_insert<K: Eq + Hash, V>(m: &dashmap::DashMap<K, V>, key: K, value: V) {
    m.insert(key, value);
}

/// Removes the entry under `key` (`DashMap::remove`).
///
/// Claimed of the crate: nothing.
#[verifier::external_body]
fn map_remove<K: Eq + Hash, V>(m: &dashmap::DashMap<K, V>, key: &K) {
    m.remove(key);
}

/// Copies of the keys present (`DashMap::iter`, each key cloned).
///
/// Claimed of the crate: nothing; which keys are present, and their order,
/// depend on every holder and on the map's hashing.
#[verifier::external_body]
fn map_keys<K: Eq + Hash + Clone, V>(m: &dashmap::DashMap<K, V>) -> Vec<K> {
    m.iter().map(|r| r.key().clone()).collect()
}

/// An in-memory key-value store; clones share the entries.
#[derive(Debug, Clone)]
#[verifier::reject_recursive_types(K)]
#[verifier::reject_recursive_types(V)]
pub struct InMemoryStore<K: Eq + Hash, V> {
    store: Arc<dashmap::DashMap<K, V>>,
}

impl<K: Eq + Hash + Clone, V: Clone> InMemoryStore<K, V> {
    /// An empty store.
    pub fn new() -> (res: Self) {
        InMemoryStore { store: new_map() }
    }

    /// The values under `keys`, one answer per key in the same order
    /// (`None` for a key without value).
    pub fn mget(&self, keys: &Vec<K>) -> (res: Vec<Option<V>>)
        ensures
            res@.len() == keys@.len(),
    {
        let mut out: Vec<Option<V>> = Vec::new();
        let mut i: usize = 0;
        while i < keys.len()
            invariant
                i <= keys@.len(),
                out@.len() == i,
            decreases keys@.len() - i,
        {
            out.push(map_get(&self.store, &keys[i]));
            i += 1;
        }
        out
    }

    /// Stores each pair, in order; a later pair with the same key wins.
    pub fn mset(&self, pairs: Vec<(K, V)>) {
        let mut pairs = pairs;
        while pairs.len() > 0
            decreases pairs@.len(),
        {
            let (k, v) = pairs.remove(0);
            map_insert(&self.store, k, v);
        }
    }

    /// Removes the entries under `keys`.
    pub fn mdelete(&self, keys: &Vec<K>) {
        let mut i: usize = 0;
        while i < keys.len()
            invariant
                i <= keys@.len(),
            decreases keys@.len() - i,
        {
            map_remove(&self.store, &keys[i]);
            i += 1;
        }
    }

    /// The keys present, in the map's order.
    pub fn yield_keys(&self) -> Vec<K> {
        map_keys(&self.store)
    }
}

impl<K: Eq + Hash + Clone, V: Clone> Default for InMemoryStore<K, V> {
    /// An empty store.
    fn default() -> (res: Self) {
        Self::new()
    }
}

} // verus!
