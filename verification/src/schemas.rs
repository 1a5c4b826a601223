//! Plain records of generations, results and message chunks, with metadata
//! kept as maps of JSON values.

use crate::messages::{BaseMessage, MessageType};
use crate::text::IntoText;
use std::collections::HashMap;
use vstd::prelude::*;

verus! {

/// A text generation with optional metadata.
#[derive(Debug, Clone)]
pub struct Generation {
    /// The generated text.
    pub text: String,
    /// Metadata by key.
    pub generation_info: Option<HashMap<String, serde_json::Value>>,
}

impl Generation {
    /// A generation of `text` without metadata.
    pub fn new<S: IntoText>(text: S) -> (res: Self)
        ensures
            res.text@ == text.text_view(),
            res.generation_info is None,
    {
        Generation { text: text.into_text(), generation_info: None }
    }
}

/// A streamed piece of a text generation.
#[derive(Debug, Clone)]
pub struct GenerationChunk {
    /// The text fragment.
    pub text: String,
    /// Metadata by key.
    pub generation_info: Option<HashMap<String, serde_json::Value>>,
}

impl GenerationChunk {
    /// A chunk of `text` without metadata.
    pub fn new<S: IntoText>(text: S) -> (res: Self)
        ensures
            res.text@ == text.text_view(),
            res.generation_info is None,
    {
        GenerationChunk { text: text.into_text(), generation_info: None }
    }
}

/// Generations per prompt, with optional provider metadata.
#[derive(Debug, Clone)]
pub struct LLMResult {
    /// Generations by prompt, then by candidate.
    pub generations: Vec<Vec<Generation>>,
    /// Provider metadata by key.
    pub llm_output: Option<HashMap<String, serde_json::Value>>,
}

impl LLMResult {
    /// A result of `generations` without metadata.
    pub fn new(generations: Vec<Vec<Generation>>) -> (res: Self)
        ensures
            res.generations == generations,
            res.llm_output is None,
    {
        LLMResult { generations, llm_output: None }
    }
}

/// A chat generation: the message and its text.
#[derive(Debug, Clone)]
pub struct ChatGeneration {
    /// The message's content.
    pub text: String,
    /// The message.
    pub message: BaseMessage,
    /// Metadata by key.
    pub generation_info: Option<HashMap<String, serde_json::Value>>,
}

impl ChatGeneration {
    /// A chat generation of `message`; its text is the message's content.
    pub fn new(message: BaseMessage) -> (res: Self)
        ensures
            res.message == message,
            res.text@ == message.content@,
            res.generation_info is None,
    {
        let text = message.content.clone();
        ChatGeneration { text, message, generation_info: None }
    }
}

/// Chat generations with optional provider metadata.
#[derive(Debug, Clone)]
pub struct ChatResult {
    /// The generations.
    pub generations: Vec<ChatGeneration>,
    /// Provider metadata by key.
    pub llm_output: Option<HashMap<String, serde_json::Value>>,
}

/// A streamed piece of a message.
#[derive(Debug, Clone)]
pub struct MessageChunk {
    /// The content fragment.
    pub content: String,
    /// The role.
    pub message_type: MessageType,
    /// An optional author name.
    pub name: Option<String>,
    /// Extra fields by key.
    pub additional_kwargs: HashMap<String, serde_json::Value>,
}

impl MessageChunk {
    /// A chunk of `content` in the given role, without name or extra
    /// fields.
    pub fn new<S: IntoText>(content: S, message_type: MessageType) -> (res: Self)
        ensures
            res.content@ == content.text_view(),
            res.message_type == message_type,
            res.name is None,
            res.additional_kwargs@ == Map::<String, serde_json::Value>::empty(),
    {
        MessageChunk { content: content.into_text(), message_type, name: None, additional_kwargs: HashMap::new() }
    }
}

} // verus!
