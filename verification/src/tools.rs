//! Tool invocation requests, tool errors and tool exceptions.

use crate::errors::ChainError;
use crate::text::IntoText;
use vstd::prelude::*;

verus! {

/// A single tool invocation request: the raw input and an optional call id.
#[derive(Debug, Clone)]
pub struct ToolInvocation {
    /// The raw string input to be passed to the tool.
    pub tool_input: String,
    /// An identifier that links this invocation to a model-generated tool
    /// call (empty when none was given).
    pub id: String,
}

impl ToolInvocation {
    /// Creates a new [`ToolInvocation`] with the given input and an empty id.
    pub fn new<S: IntoText>(tool_input: S) -> (res: Self)
        ensures
            res.tool_input@ == tool_input.text_view(),
            res.id@ == Seq::<char>::empty(),
    {
        ToolInvocation { tool_input: tool_input.into_text(), id: String::new() }
    }

    /// Sets the `id` field and returns `self` (builder pattern).
    pub fn with_id<S: IntoText>(self, id: S) -> (res: Self)
        ensures
            res.tool_input == self.tool_input,
            res.id@ == id.text_view(),
    {
        ToolInvocation { tool_input: self.tool_input, id: id.into_text() }
    }
}

/// Convenience alias for the result of a tool invocation.
pub type ToolResult = Result<String, ChainError>;

/// Errors that can occur during tool execution.
#[derive(Debug, Clone)]
pub enum ToolError {
    /// The input provided to the tool is invalid or malformed.
    InvalidInput(String),
    /// An error occurred while the tool was executing.
    ExecutionError(String),
    /// The tool output could not be parsed into the expected format.
    ParsingError(String),
}

impl ToolError {
    /// The rendered text of the error.
    pub open spec fn spec_text(&self) -> Seq<char> {
        match self {
            ToolError::InvalidInput(s) => "Invalid tool input: "@ + s@,
            ToolError::ExecutionError(s) => "Tool execution error: "@ + s@,
            ToolError::ParsingError(s) => "Tool output parsing error: "@ + s@,
        }
    }

    /// Renders the error, e.g. `"Invalid tool input: bad"`.
    pub fn to_string(&self) -> (res: String)
        ensures
            res@ == self.spec_text(),
    {
        let (prefix, detail): (&str, &str) = match self {
            ToolError::InvalidInput(s) => ("Invalid tool input: ", s.as_str()),
            ToolError::ExecutionError(s) => ("Tool execution error: ", s.as_str()),
            ToolError::ParsingError(s) => ("Tool output parsing error: ", s.as_str()),
        };
        let mut out = String::from_str(prefix);
        out.append(detail);
        out
    }

    /// Converts the error into a [`ChainError::ToolError`] carrying the
    /// rendered text.
    pub fn into_chain_error(self) -> (res: ChainError)
        ensures
            res matches ChainError::ToolError(m) && m@ == self.spec_text(),
    {
        ChainError::ToolError(self.to_string())
    }
}

impl From<ToolError> for ChainError {
    fn from(e: ToolError) -> (res: ChainError) {
        e.into_chain_error()
    }
}

impl vstd::std_specs::convert::FromSpecImpl<ToolError> for ChainError {
    open spec fn obeys_from_spec() -> bool {
        false
    }

    open spec fn from_spec(e: ToolError) -> ChainError {
        ChainError::TimeoutError
    }
}

/// A structured exception that tools raise to signal a recoverable error.
#[derive(Debug, Clone)]
pub struct ToolException {
    /// Human-readable error message.
    pub message: String,
    /// Whether the error should be surfaced to the agent as a fallback
    /// observation rather than aborting execution.
    pub send_to_llm: bool,
}

impl ToolException {
    /// Creates a new [`ToolException`] with the given message.
    pub fn new<S: IntoText>(message: S) -> (res: Self)
        ensures
            res.message@ == message.text_view(),
            !res.send_to_llm,
    {
        ToolException { message: message.into_text(), send_to_llm: false }
    }

    /// Sets `send_to_llm` to `true` and returns `self` (builder pattern).
    pub fn with_send_to_llm(self) -> (res: Self)
        ensures
            res.message == self.message,
            res.send_to_llm,
    {
        ToolException { message: self.message, send_to_llm: true }
    }

    /// Renders the exception as `"ToolException: <message>"`.
    pub fn to_string(&self) -> (res: String)
        ensures
            res@ == "ToolException: "@ + self.message@,
    {
        let mut out = String::from_str("ToolException: ");
        out.append(self.message.as_str());
        out
    }
}

} // verus!
