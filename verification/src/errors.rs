//! Error type shared by every LangChain operation.

use vstd::prelude::*;

verus! {

/// Unified error type for all LangChain operations.
///
/// Each variant carries a human-readable description; the rendered text of
/// an error is given by [`ChainError::to_string`].
#[derive(Debug, Clone)]
pub enum ChainError {
    /// An error returned by an LLM provider.
    LLMError(String),
    /// An error during output parsing.
    ParserError(String),
    /// An error returned by a tool.
    ToolError(String),
    /// An error during prompt construction.
    PromptError(String),
    /// An error from a vector store operation.
    VectorStoreError(String),
    /// An error from an embedding operation.
    EmbeddingError(String),
    /// An error from an agent operation.
    AgentError(String),
    /// An error from a memory operation.
    MemoryError(String),
    /// An I/O error.
    IOError(String),
    /// A validation error.
    ValidationError(String),
    /// A timeout occurred.
    TimeoutError,
    /// A rate limit was exceeded.
    RateLimitError(String),
    /// A requested feature is not implemented.
    NotImplemented(String),
    /// A configuration error.
    ConfigError(String),
    /// An error from a callback handler.
    CallbackError(String),
    /// A serialization/deserialization error.
    SerializationError(String),
    /// An error during streaming.
    StreamError(String),
}

/// Convenience alias for `std::result::Result<T, ChainError>`.
pub type Result<T> = std::result::Result<T, ChainError>;

impl ChainError {
    /// The prefix that the rendered text of each variant starts with.
    pub open spec fn spec_prefix(&self) -> Seq<char> {
        match self {
            ChainError::LLMError(_) => "LLM error: "@,
            ChainError::ParserError(_) => "Parser error: "@,
            ChainError::ToolError(_) => "Tool error: "@,
            ChainError::PromptError(_) => "Prompt error: "@,
            ChainError::VectorStoreError(_) => "Vector store error: "@,
            ChainError::EmbeddingError(_) => "Embedding error: "@,
            ChainError::AgentError(_) => "Agent error: "@,
            ChainError::MemoryError(_) => "Memory error: "@,
            ChainError::IOError(_) => "IO error: "@,
            ChainError::ValidationError(_) => "Validation error: "@,
            ChainError::TimeoutError => "Timeout"@,
            ChainError::RateLimitError(_) => "Rate limit exceeded: "@,
            ChainError::NotImplemented(_) => "Not implemented: "@,
            ChainError::ConfigError(_) => "Configuration error: "@,
            ChainError::CallbackError(_) => "Callback error: "@,
            ChainError::SerializationError(_) => "Serialization error: "@,
            ChainError::StreamError(_) => "Stream error: "@,
        }
    }

    /// The description carried by the error (empty for `TimeoutError`).
    pub open spec fn spec_detail(&self) -> Seq<char> {
        match self {
            ChainError::LLMError(s) => s@,
            ChainError::ParserError(s) => s@,
            ChainError::ToolError(s) => s@,
            ChainError::PromptError(s) => s@,
            ChainError::VectorStoreError(s) => s@,
            ChainError::EmbeddingError(s) => s@,
            ChainError::AgentError(s) => s@,
            ChainError::MemoryError(s) => s@,
            ChainError::IOError(s) => s@,
            ChainError::ValidationError(s) => s@,
            ChainError::TimeoutError => Seq::empty(),
            ChainError::RateLimitError(s) => s@,
            ChainError::NotImplemented(s) => s@,
            ChainError::ConfigError(s) => s@,
            ChainError::CallbackError(s) => s@,
            ChainError::SerializationError(s) => s@,
            ChainError::StreamError(s) => s@,
        }
    }

    /// The rendered text of the error: its prefix followed by its description.
    pub open spec fn spec_text(&self) -> Seq<char> {
        self.spec_prefix() + self.spec_detail()
    }

    /// Renders the error as a human-readable message, such as
    /// `"LLM error: timeout"` or `"Timeout"`.
    pub fn to_string(&self) -> (res: String)
        ensures
            res@ == self.spec_text(),
    {
        let (prefix, detail): (&str, &str) = match self {
            ChainError::LLMError(s) => ("LLM error: ", s.as_str()),
            ChainError::ParserError(s) => ("Parser error: ", s.as_str()),
            ChainError::ToolError(s) => ("Tool error: ", s.as_str()),
            ChainError::PromptError(s) => ("Prompt error: ", s.as_str()),
            ChainError::VectorStoreError(s) => ("Vector store error: ", s.as_str()),
            ChainError::EmbeddingError(s) => ("Embedding error: ", s.as_str()),
            ChainError::AgentError(s) => ("Agent error: ", s.as_str()),
            ChainError::MemoryError(s) => ("Memory error: ", s.as_str()),
            ChainError::IOError(s) => ("IO error: ", s.as_str()),
            ChainError::ValidationError(s) => ("Validation error: ", s.as_str()),
            ChainError::TimeoutError => ("Timeout", ""),
            ChainError::RateLimitError(s) => ("Rate limit exceeded: ", s.as_str()),
            ChainError::NotImplemented(s) => ("Not implemented: ", s.as_str()),
            ChainError::ConfigError(s) => ("Configuration error: ", s.as_str()),
            ChainError::CallbackError(s) => ("Callback error: ", s.as_str()),
            ChainError::SerializationError(s) => ("Serialization error: ", s.as_str()),
            ChainError::StreamError(s) => ("Stream error: ", s.as_str()),
        };
        proof {
            reveal_strlit("");
        }
        let mut out = String::from_str(prefix);
        out.append(detail);
        out
    }
}


/// The declared type of `serde_json`'s error.
#[verifier::external_type_specification]
#[verifier::external_body]
pub struct ExJsonError(serde_json::Error);

/// The declared type of `std::io::Error`.
#[verifier::external_type_specification]
#[verifier::external_body]
pub struct ExIoError(std::io::Error);

/// The text of a `serde_json` error (its `Display` output).
///
/// Claimed of the crate: nothing; the text depends on the error's kind and
/// position, which are not modelled.
#[verifier::external_body]
pub(crate) fn json_error_text(e: &serde_json::Error) -> String {
    e.to_string()
}

/// The text of an I/O error (its `Display` output).
///
/// Claimed of std: nothing; the text depends on the error's kind and
/// origin, which are not modelled.
#[verifier::external_body]
pub(crate) fn io_error_text(e: &std::io::Error) -> String {
    e.to_string()
}

impl From<serde_json::Error> for ChainError {
    /// A JSON error becomes a [`ChainError::ParserError`] with its text.
    fn from(e: serde_json::Error) -> (res: ChainError) {
        ChainError::ParserError(json_error_text(&e))
    }
}

impl vstd::std_specs::convert::FromSpecImpl<serde_json::Error> for ChainError {
    open spec fn obeys_from_spec() -> bool {
        false
    }

    open spec fn from_spec(e: serde_json::Error) -> ChainError {
        ChainError::TimeoutError
    }
}

impl From<std::io::Error> for ChainError {
    /// An I/O error becomes a [`ChainError::IOError`] with its text.
    fn from(e: std::io::Error) -> (res: ChainError) {
        ChainError::IOError(io_error_text(&e))
    }
}

impl vstd::std_specs::convert::FromSpecImpl<std::io::Error> for ChainError {
    open spec fn obeys_from_spec() -> bool {
        false
    }

    open spec fn from_spec(e: std::io::Error) -> ChainError {
        ChainError::TimeoutError
    }
}

} // verus!
