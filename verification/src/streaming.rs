//! Chunks and events of a stream, and a producer handle that pushes chunks
//! and errors into an unbounded channel.

use crate::errors::ChainError;
use crate::outputs::copy_value;
use std::collections::HashMap;
use vstd::prelude::*;

verus! {

/// A chunk of raw bytes produced while streaming.
#[derive(Debug, Clone)]
pub struct ByteChunk {
    /// The bytes of this chunk.
    pub data: Vec<u8>,
    /// Metadata by key.
    pub metadata: HashMap<String, serde_json::Value>,
}

impl ByteChunk {
    /// A chunk of `data` without metadata.
    pub fn new(data: Vec<u8>) -> (res: Self)
        ensures
            res.data@ == data@,
            res.metadata@ == Map::<String, serde_json::Value>::empty(),
    {
        ByteChunk { data, metadata: HashMap::new() }
    }

    /// The same chunk with `metadata` in place of its metadata.
    pub fn with_metadata(self, metadata: HashMap<String, serde_json::Value>) -> (res: Self)
        ensures
            res.data@ == self.data@,
            res.metadata@ == metadata@,
    {
        ByteChunk { data: self.data, metadata }
    }
}

/// A step in the life of a stream.
#[derive(Debug)]
pub enum StreamEvent {
    /// The stream started for the named runnable with this input.
    Start { name: String, input: serde_json::Value },
    /// One piece of output.
    Chunk { chunk: serde_json::Value },
    /// The stream ended for the named runnable with this output.
    End { name: String, output: serde_json::Value },
    /// The stream failed.
    Error { error: String },
}

impl Clone for StreamEvent {
    fn clone(&self) -> (res: Self)
        ensures
            res == *self,
    {
        match self {
            StreamEvent::Start { name, input } => StreamEvent::Start { name: name.clone(), input: copy_value(input) },
            StreamEvent::Chunk { chunk } => StreamEvent::Chunk { chunk: copy_value(chunk) },
            StreamEvent::End { name, output } => StreamEvent::End { name: name.clone(), output: copy_value(output) },
            StreamEvent::Error { error } => StreamEvent::Error { error: error.clone() },
        }
    }
}

#[verifier::external_type_specification]
#[verifier::external_body]
#[verifier::reject_recursive_types(T)]
pub struct ExUnboundedSender<T>(tokio::sync::mpsc::UnboundedSender<T>);

#[verifier::external_type_specification]
#[verifier::external_body]
#[verifier::reject_recursive_types(T)]
pub struct ExUnboundedReceiver<T>(tokio::sync::mpsc::UnboundedReceiver<T>);

/// What travels through a stream's channel.
pub type StreamItem = Result<ByteChunk, ChainError>;

/// Opens an unbounded channel (`tokio::sync::mpsc::unbounded_channel`).
///
/// Claimed of the crate: nothing; the two ends are opaque here.
#[verifier::external_body]
fn open_channel() -> (tokio::sync::mpsc::UnboundedSender<StreamItem>, tokio::sync::mpsc::UnboundedReceiver<StreamItem>) {
    tokio::sync::mpsc::unbounded_channel()
}

/// Sends an item without waiting (`UnboundedSender::send`); `Err` when the
/// receiving end is closed.
///
/// Claimed of the crate: nothing; whether the receiver is still open is
/// decided by whoever holds it.
#[verifier::external_body]
fn send_item(sender: &tokio::sync::mpsc::UnboundedSender<StreamItem>, item: StreamItem) -> Result<(), ()> {
    match sender.send(item) {
        Ok(()) => Ok(()),
        Err(_) => Err(()),
    }
}

/// A second handle on the same channel (`UnboundedSender::clone`).
///
/// Claimed of the crate: nothing.
#[verifier::external_body]
fn clone_sender(sender: &tokio::sync::mpsc::UnboundedSender<StreamItem>) -> tokio::sync::mpsc::UnboundedSender<StreamItem> {
    sender.clone()
}

/// Whether `res` is the stream error with message `msg`.
pub open spec fn is_stream_error(res: Result<(), ChainError>, msg: Seq<char>) -> bool {
    res matches Err(ChainError::StreamError(m)) && m@ == msg
}

/// Produces a stream: pushes chunks and errors into an unbounded channel
/// whose receiving end was handed out by [`StreamManager::channel`].
pub struct StreamManager {
    buffer_size: usize,
    sender: Option<tokio::sync::mpsc::UnboundedSender<StreamItem>>,
}

impl StreamManager {
    /// Whether a channel has been opened.
    pub closed spec fn has_channel(&self) -> bool {
        self.sender is Some
    }

    /// The configured buffer size.
    pub closed spec fn buffer_size_spec(&self) -> usize {
        self.buffer_size
    }

    /// A manager with the given buffer size and no channel yet.
    pub fn new(buffer_size: usize) -> (res: Self)
        ensures
            !res.has_channel(),
            res.buffer_size_spec() == buffer_size,
    {
        StreamManager { buffer_size, sender: None }
    }

    /// Opens a new channel, keeps its sending end and returns the receiving
    /// end.
    pub fn channel(&mut self) -> (rx: tokio::sync::mpsc::UnboundedReceiver<StreamItem>)
        ensures
            final(self).has_channel(),
            final(self).buffer_size_spec() == old(self).buffer_size_spec(),
    {
        let (tx, rx) = open_channel();
        self.sender = Some(tx);
        rx
    }

    /// Pushes a chunk into the channel.
    ///
    /// Without a channel the push fails with `No channel configured`; when
    /// the receiving end is closed it fails with
    /// `Failed to push chunk: channel closed`.
    pub fn push(&self, chunk: ByteChunk) -> (res: Result<(), ChainError>)
        ensures
            !self.has_channel() ==> is_stream_error(res, "No channel configured"@),
            self.has_channel() ==> (res is Ok || is_stream_error(res, "Failed to push chunk: channel closed"@)),
    {
        match &self.sender {
            Some(sender) => match send_item(sender, Ok(chunk)) {
                Ok(()) => Ok(()),
                Err(()) => Err(ChainError::StreamError(String::from_str("Failed to push chunk: channel closed"))),
            },
            None => Err(ChainError::StreamError(String::from_str("No channel configured"))),
        }
    }

    /// Pushes an error into the channel.
    ///
    /// Without a channel the push fails with `No channel configured`; when
    /// the receiving end is closed it fails with
    /// `Failed to push error: channel closed`.
    pub fn push_error(&self, error: ChainError) -> (res: Result<(), ChainError>)
        ensures
            !self.has_channel() ==> is_stream_error(res, "No channel configured"@),
            self.has_channel() ==> (res is Ok || is_stream_error(res, "Failed to push error: channel closed"@)),
    {
        match &self.sender {
            Some(sender) => match send_item(sender, Err(error)) {
                Ok(()) => Ok(()),
                Err(()) => Err(ChainError::StreamError(String::from_str("Failed to push error: channel closed"))),
            },
            None => Err(ChainError::StreamError(String::from_str("No channel configured"))),
        }
    }

    /// Lets go of a second handle on the channel; the manager keeps its own,
    /// so the channel stays open.
    pub fn close(&self) {
        match &self.sender {
            Some(sender) => {
                let _handle = clone_sender(sender);
            },
            None => {},
        }
    }
}

} // verus!
