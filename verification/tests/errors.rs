use langchain_core::errors::ChainError;

#[test]
fn test_chain_error_display_llm() {
    let err = ChainError::LLMError("timeout".into());
    assert_eq!(err.to_string(), "LLM error: timeout");
}

#[test]
fn test_chain_error_display_parser() {
    let err = ChainError::ParserError("invalid json".into());
    assert_eq!(err.to_string(), "Parser error: invalid json");
}

#[test]
fn test_chain_error_display_tool() {
    let err = ChainError::ToolError("not found".into());
    assert_eq!(err.to_string(), "Tool error: not found");
}

#[test]
fn test_chain_error_display_prompt() {
    let err = ChainError::PromptError("missing var".into());
    assert_eq!(err.to_string(), "Prompt error: missing var");
}

#[test]
fn test_chain_error_display_vectorstore() {
    let err = ChainError::VectorStoreError("connection failed".into());
    assert_eq!(err.to_string(), "Vector store error: connection failed");
}

#[test]
fn test_chain_error_display_embedding() {
    let err = ChainError::EmbeddingError("model not found".into());
    assert_eq!(err.to_string(), "Embedding error: model not found");
}

#[test]
fn test_chain_error_display_agent() {
    let err = ChainError::AgentError("invalid action".into());
    assert_eq!(err.to_string(), "Agent error: invalid action");
}

#[test]
fn test_chain_error_display_memory() {
    let err = ChainError::MemoryError("buffer full".into());
    assert_eq!(err.to_string(), "Memory error: buffer full");
}

#[test]
fn test_chain_error_display_io() {
    let err = ChainError::IOError("file not found".into());
    assert_eq!(err.to_string(), "IO error: file not found");
}

#[test]
fn test_chain_error_display_validation() {
    let err = ChainError::ValidationError("bad input".into());
    assert_eq!(err.to_string(), "Validation error: bad input");
}

#[test]
fn test_chain_error_display_timeout() {
    let err = ChainError::TimeoutError;
    assert_eq!(err.to_string(), "Timeout");
}

#[test]
fn test_chain_error_display_rate_limit() {
    let err = ChainError::RateLimitError("too fast".into());
    assert_eq!(err.to_string(), "Rate limit exceeded: too fast");
}

#[test]
fn test_chain_error_send_sync() {
    fn assert_send<T: Send>() {}
    fn assert_sync<T: Sync>() {}
    assert_send::<ChainError>();
    assert_sync::<ChainError>();
}

#[test]
fn test_chain_error_clone() {
    let err = ChainError::LLMError("original".into());
    let cloned = err.clone();
    assert_eq!(cloned.to_string(), "LLM error: original");
}

#[test]
fn chain_error_display_remaining_variants() {
    assert_eq!(ChainError::NotImplemented("x".into()).to_string(), "Not implemented: x");
    assert_eq!(ChainError::ConfigError("x".into()).to_string(), "Configuration error: x");
    assert_eq!(ChainError::CallbackError("x".into()).to_string(), "Callback error: x");
    assert_eq!(ChainError::SerializationError("x".into()).to_string(), "Serialization error: x");
    assert_eq!(ChainError::StreamError("x".into()).to_string(), "Stream error: x");
}

#[test]
fn errors_test_chain_error_from_serde_json() {
    let serde_err = serde_json::from_str::<i32>("not a number").unwrap_err();
    let chain_err: ChainError = serde_err.into();
    assert!(matches!(chain_err, ChainError::ParserError(_)));
}
