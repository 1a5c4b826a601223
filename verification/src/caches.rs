//! Response caches keyed by a digest of the prompt and the model name.
//!
//! The key is computed and checked here; the stores are shared maps whose
//! contents depend on every holder, so their operations promise nothing
//! about what a lookup finds. The asynchronous cache interface lives with
//! the application.

use crate::errors::ChainError;
use crate::runnables::hex_digit;
use sha2::Digest;
use vstd::prelude::*;

verus! {

broadcast use vstd::seq_lib::group_seq_properties;

/// The SHA-256 digest of a byte sequence.
pub uninterp spec fn sha256(bytes: Seq<u8>) -> Seq<u8>;

/// Hashes the bytes of `a` followed by those of `b` with SHA-256
/// (`sha2::Sha256`, two `update` calls and `finalize`).
///
/// Claimed of the crate: the digest is determined by the concatenated
/// bytes (named `sha256`) and is 32 bytes long.
#[verifier::external_body]
fn sha256_of_pair(a: &str, b: &str) -> (d: Vec<u8>)
    ensures
        d@ == sha256(vstd::utf8::encode_utf8(a@) + vstd::utf8::encode_utf8(b@)),
        d@.len() == 32,
{
    let mut hasher = sha2::Sha256::new();
    hasher.update(a.as_bytes());
    hasher.update(b.as_bytes());
    hasher.finalize().to_vec()
}

/// Lower-case hexadecimal of bytes, two digits per byte (what
/// `hex::encode` writes).
pub open spec fn hex_bytes(bytes: Seq<u8>) -> Seq<char>
    decreases bytes.len(),
{
    if bytes.len() == 0 {
        Seq::empty()
    } else {
        hex_bytes(bytes.drop_last()) + seq![hex_digit((bytes.last() / 16) as nat), hex_digit((bytes.last() % 16) as nat)]
    }
}

/// Encodes bytes as lower-case hexadecimal with `hex::encode`.
///
/// Claimed of the crate (its documentation and table): two lower-case
/// digits per byte, high nibble first.
#[verifier::external_body]
fn hex_encode(bytes: &[u8]) -> (s: String)
    ensures
        s@ == hex_bytes(bytes@),
{
    hex::encode(bytes)
}

/// The cache key of a prompt and a model: `langchain:cache:` followed by
/// the hexadecimal SHA-256 digest of the prompt's bytes and then the
/// model's.
pub open spec fn cache_key_of(prompt: Seq<char>, llm: Seq<char>) -> Seq<char> {
    "langchain:cache:"@ + hex_bytes(sha256(vstd::utf8::encode_utf8(prompt) + vstd::utf8::encode_utf8(llm)))
}

/// Computes the cache key of a prompt and a model.
pub fn cache_key(prompt: &str, llm: &str) -> (key: String)
    ensures
        key@ == cache_key_of(prompt@, llm@),
{
    let d = sha256_of_pair(prompt, llm);
    let h = hex_encode(d.as_slice());
    let mut key = String::from_str("langchain:cache:");
    key.append(h.as_str());
    key
}

#[verifier::external_type_specification]
#[verifier::external_body]
#[verifier::reject_recursive_types(K)]
#[verifier::reject_recursive_types(V)]
#[verifier::reject_recursive_types(S)]
pub struct ExDashMap<K, V, S>(dashmap::DashMap<K, V, S>);

/// A new, empty shared map.
///
/// Claimed of the crate: nothing.
#[verifier::external_body]
fn new_store() -> std::sync::Arc<dashmap::DashMap<String, String>> {
    std::sync::Arc::new(dashmap::DashMap::new())
}

/// The value stored under `key` (`DashMap::get`).
///
/// Claimed of the crate: nothing; the contents depend on every holder.
#[verifier::external_body]
fn store_get(m: &dashmap::DashMap<String, String>, key: &str) -> Option<String> {
    m.get(key).map(|v| v.value().clone())
}

/// Stores `value` under `key` (`DashMap::insert`).
///
/// Claimed of the crate: nothing.
#[verifier::external_body]
fn store_insert(m: &dashmap::DashMap<String, String>, key: String, value: String) {
    m.insert(key, value);
}

/// Removes every entry (`DashMap::clear`).
///
/// Claimed of the crate: nothing.
#[verifier::external_body]
fn store_clear(m: &dashmap::DashMap<String, String>) {
    m.clear();
}

/// An in-memory response cache shared between clones.
#[derive(Debug, Clone)]
pub struct InMemoryCache {
    store: std::sync::Arc<dashmap::DashMap<String, String>>,
}

impl InMemoryCache {
    /// Creates an empty cache.
    pub fn new() -> (res: Self) {
        InMemoryCache { store: new_store() }
    }

    /// The cached response for a prompt and model, looked up under
    /// [`cache_key`].
    pub fn lookup_now(&self, prompt: &str, llm: &str) -> Option<String> {
        let key = cache_key(prompt, llm);
        store_get(&self.store, key.as_str())
    }

    /// Caches a response for a prompt and model under [`cache_key`].
    pub fn update_now(&self, prompt: &str, llm: &str, value: &str) {
        let key = cache_key(prompt, llm);
        store_insert(&self.store, key, value.to_owned())
    }

    /// Removes every cached response.
    pub fn clear_now(&self) {
        store_clear(&self.store)
    }
}

/// A new, empty fallback map behind a lock.
///
/// Claimed of std: nothing.
#[verifier::external_body]
fn new_fallback() -> std::sync::Arc<std::sync::RwLock<std::collections::HashMap<String, Option<String>>>> {
    std::sync::Arc::new(std::sync::RwLock::new(std::collections::HashMap::new()))
}

/// The value under `key` (`RwLock::read`, then `HashMap::get`); the lock
/// error's text when the lock is poisoned.
///
/// Claimed of std: nothing; the contents depend on every holder.
#[verifier::external_body]
fn fallback_get(m: &std::sync::RwLock<std::collections::HashMap<String, Option<String>>>, key: &str) -> Result<Option<String>, String> {
    m.read().map(|c| c.get(key).and_then(|v| v.clone())).map_err(|e| e.to_string())
}

/// Stores `value` under `key` (`RwLock::write`, then `HashMap::insert`);
/// the lock error's text when the lock is poisoned.
///
/// Claimed of std: nothing.
#[verifier::external_body]
fn fallback_insert(m: &std::sync::RwLock<std::collections::HashMap<String, Option<String>>>, key: String, value: String) -> Result<(), String> {
    m.write().map(|mut c| {
        c.insert(key, Some(value));
    }).map_err(|e| e.to_string())
}

/// Removes every entry (`RwLock::write`, then `HashMap::clear`); the lock
/// error's text when the lock is poisoned.
///
/// Claimed of std: nothing.
#[verifier::external_body]
fn fallback_clear(m: &std::sync::RwLock<std::collections::HashMap<String, Option<String>>>) -> Result<(), String> {
    m.write().map(|mut c| c.clear()).map_err(|e| e.to_string())
}

/// Whether `e` is a lock failure of the fallback store: an LLM error whose
/// message starts with `Fallback cache lock error: `.
pub open spec fn is_lock_error(e: ChainError) -> bool {
    e matches ChainError::LLMError(m) && m@.len() >= 27 && m@.take(27) == "Fallback cache lock error: "@
}

/// A lock failure of the fallback store: `Fallback cache lock error: `
/// and the lock error's text.
fn lock_error(detail: String) -> (e: ChainError)
    ensures
        e matches ChainError::LLMError(m) && m@ == "Fallback cache lock error: "@ + detail@,
        is_lock_error(e),
{
    let mut m = String::from_str("Fallback cache lock error: ");
    m.append(detail.as_str());
    proof {
        reveal_strlit("Fallback cache lock error: ");
        assert(m@.take(27) =~= "Fallback cache lock error: "@);
    }
    ChainError::LLMError(m)
}

/// A cache configured for a Redis server; without Redis support built in,
/// responses are kept in an in-memory fallback map.
#[derive(Debug, Clone)]
pub struct RedisCache {
    /// The Redis connection string.
    pub connection_string: String,
    /// The time to live of entries, in seconds.
    pub ttl: Option<u64>,
    /// The prefix of the keys this cache owns.
    pub prefix: String,
    fallback: std::sync::Arc<std::sync::RwLock<std::collections::HashMap<String, Option<String>>>>,
}

impl RedisCache {
    /// The connection string.
    pub closed spec fn connection(&self) -> Seq<char> {
        self.connection_string@
    }

    /// The time to live.
    pub closed spec fn ttl_seconds(&self) -> Option<u64> {
        self.ttl
    }

    /// The key prefix.
    pub closed spec fn key_prefix(&self) -> Seq<char> {
        self.prefix@
    }

    /// Creates a cache for the given connection string, with no time to
    /// live and the prefix `langchain:cache`.
    pub fn new(connection_string: &str) -> (res: Self)
        ensures
            res.connection() == connection_string@,
            res.ttl_seconds() is None,
            res.key_prefix() == "langchain:cache"@,
    {
        RedisCache {
            connection_string: connection_string.to_owned(),
            ttl: None,
            prefix: String::from_str("langchain:cache"),
            fallback: new_fallback(),
        }
    }

    /// Sets the time to live of entries, in seconds.
    pub fn with_ttl(self, ttl_seconds: u64) -> (res: Self)
        ensures
            res.connection() == self.connection(),
            res.ttl_seconds() == Some(ttl_seconds),
            res.key_prefix() == self.key_prefix(),
    {
        RedisCache { connection_string: self.connection_string, ttl: Some(ttl_seconds), prefix: self.prefix, fallback: self.fallback }
    }

    /// Sets the key prefix.
    pub fn with_prefix<S: crate::text::IntoText>(self, prefix: S) -> (res: Self)
        ensures
            res.connection() == self.connection(),
            res.ttl_seconds() == self.ttl_seconds(),
            res.key_prefix() == prefix.text_view(),
    {
        RedisCache { connection_string: self.connection_string, ttl: self.ttl, prefix: prefix.into_text(), fallback: self.fallback }
    }

    /// Looks a response up in the fallback store under [`cache_key`]; a
    /// poisoned lock is an LLM error.
    pub fn lookup_now(&self, prompt: &str, llm: &str) -> (res: Result<Option<String>, ChainError>)
        ensures
            res matches Err(e) ==> is_lock_error(e),
    {
        let key = cache_key(prompt, llm);
        match fallback_get(&self.fallback, key.as_str()) {
            Ok(v) => Ok(v),
            Err(d) => Err(lock_error(d)),
        }
    }

    /// Stores a response in the fallback store under [`cache_key`].
    pub fn update_now(&self, prompt: &str, llm: &str, value: &str) -> (res: Result<(), ChainError>)
        ensures
            res matches Err(e) ==> is_lock_error(e),
    {
        let key = cache_key(prompt, llm);
        match fallback_insert(&self.fallback, key, value.to_owned()) {
            Ok(()) => Ok(()),
            Err(d) => Err(lock_error(d)),
        }
    }

    /// Empties the fallback store.
    pub fn clear_now(&self) -> (res: Result<(), ChainError>)
        ensures
            res matches Err(e) ==> is_lock_error(e),
    {
        match fallback_clear(&self.fallback) {
            Ok(()) => Ok(()),
            Err(d) => Err(lock_error(d)),
        }
    }
}

} // verus!
