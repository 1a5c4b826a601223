//! An in-memory chat message history shared between clones.
//!
//! The messages sit behind a shared lock; what a read sees depends on the
//! other holders of the history, so the operations here promise nothing
//! about the contents. The asynchronous history interface lives with the
//! application and calls these operations.

use crate::messages::BaseMessage;
use vstd::prelude::*;

verus! {

/// A new, empty shared message list.
///
/// Claimed of std: nothing.
#[verifier::external_body]
fn shared_messages() -> std::sync::Arc<std::sync::RwLock<Vec<BaseMessage>>> {
    std::sync::Arc::new(std::sync::RwLock::new(Vec::new()))
}

/// The number of messages, or 0 when the lock is poisoned
/// (`RwLock::read`, then `Vec::len`).
///
/// Claimed of std: nothing; the count depends on the other holders.
#[verifier::external_body]
fn shared_len(m: &std::sync::RwLock<Vec<BaseMessage>>) -> usize {
    m.read().map(|v| v.len()).unwrap_or(0)
}

/// A copy of the messages, or none when the lock is poisoned.
///
/// Claimed of std: nothing; the contents depend on the other holders.
#[verifier::external_body]
fn shared_snapshot(m: &std::sync::RwLock<Vec<BaseMessage>>) -> Vec<BaseMessage> {
    m.read().map(|v| v.clone()).unwrap_or_default()
}

/// Appends a message unless the lock is poisoned.
///
/// Claimed of std: nothing.
#[verifier::external_body]
fn shared_push(m: &std::sync::RwLock<Vec<BaseMessage>>, message: BaseMessage) {
    if let Ok(mut v) = m.write() {
        v.push(message);
    }
}

/// Removes all messages unless the lock is poisoned.
///
/// Claimed of std: nothing.
#[verifier::external_body]
fn shared_clear(m: &std::sync::RwLock<Vec<BaseMessage>>) {
    if let Ok(mut v) = m.write() {
        v.clear();
    }
}

/// A chat history kept in memory; clones share the same messages.
#[derive(Debug)]
pub struct InMemoryChatMessageHistory {
    messages: std::sync::Arc<std::sync::RwLock<Vec<BaseMessage>>>,
}

impl InMemoryChatMessageHistory {
    /// Creates an empty history.
    pub fn new() -> (res: Self) {
        InMemoryChatMessageHistory { messages: shared_messages() }
    }

    /// The number of messages.
    pub fn len(&self) -> (n: usize) {
        shared_len(&self.messages)
    }

    /// Whether there are no messages.
    pub fn is_empty(&self) -> (b: bool) {
        self.len() == 0
    }

    /// A copy of the messages, in order.
    pub fn messages_now(&self) -> Vec<BaseMessage> {
        shared_snapshot(&self.messages)
    }

    /// Appends a message.
    pub fn add_message_now(&self, message: BaseMessage) {
        shared_push(&self.messages, message)
    }

    /// Removes all messages.
    pub fn clear_now(&self) {
        shared_clear(&self.messages)
    }
}

impl Clone for InMemoryChatMessageHistory {
    fn clone(&self) -> (res: Self) {
        InMemoryChatMessageHistory { messages: std::sync::Arc::clone(&self.messages) }
    }
}

} // verus!
