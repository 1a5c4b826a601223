use langchain_core::errors::ChainError;
use langchain_core::tools::{ToolError, ToolException, ToolInvocation};

#[test]
fn test_tool_invocation() {
    let inv = ToolInvocation::new("test input").with_id("call-123");
    assert_eq!(inv.tool_input, "test input");
    assert_eq!(inv.id, "call-123");
}

#[test]
fn test_tool_error_conversion() {
    let err = ToolError::InvalidInput("bad input".into());
    let chain_err: ChainError = err.into();
    match chain_err {
        ChainError::ToolError(msg) => assert!(msg.contains("bad input")),
        _ => panic!("expected ToolError variant"),
    }
}

#[test]
fn test_tool_exception() {
    let ex = ToolException::new("something went wrong").with_send_to_llm();
    assert!(ex.send_to_llm);
    assert_eq!(ex.to_string(), "ToolException: something went wrong");
}

#[test]
fn test_tool_invocation_default_id() {
    let inv = ToolInvocation::new("hello");
    assert!(inv.id.is_empty());
}

#[test]
fn test_tool_exception_default_send_to_llm() {
    let ex = ToolException::new("error");
    assert!(!ex.send_to_llm);
}

#[test]
fn test_tool_error_display() {
    let err = ToolError::InvalidInput("bad".into());
    let msg = err.to_string();
    assert_eq!(msg, "Invalid tool input: bad");

    let err = ToolError::ExecutionError("crash".into());
    let msg = err.to_string();
    assert_eq!(msg, "Tool execution error: crash");

    let err = ToolError::ParsingError("syntax".into());
    let msg = err.to_string();
    assert_eq!(msg, "Tool output parsing error: syntax");
}

#[test]
fn test_tool_exception_display() {
    let ex = ToolException::new("fail");
    assert_eq!(ex.to_string(), "ToolException: fail");
}

#[test]
fn test_tool_exception_send_to_llm_flag() {
    let ex = ToolException::new("recoverable").with_send_to_llm();
    assert!(ex.send_to_llm);
    assert_eq!(ex.message, "recoverable");
}

#[test]
fn test_tool_error_into_chain_error() {
    let err = ToolError::ExecutionError("crash".into());
    let chain: ChainError = err.into();
    match chain {
        ChainError::ToolError(msg) => assert!(msg.contains("crash")),
        _ => panic!("expected ToolError variant"),
    }
}

#[test]
fn test_tool_exception_default_message() {
    let ex = ToolException::new("");
    assert_eq!(ex.message, "");
    assert!(!ex.send_to_llm);
}

#[test]
fn test_tool_invocation_clone() {
    let inv = ToolInvocation::new("data").with_id("id1");
    let cloned = inv.clone();
    assert_eq!(cloned.tool_input, "data");
    assert_eq!(cloned.id, "id1");
}

#[test]
fn test_tool_invocation_empty_input() {
    let inv = ToolInvocation::new("").with_id("empty");
    assert_eq!(inv.tool_input, "");
    assert_eq!(inv.id, "empty");
}

#[test]
fn tool_error_into_chain_error_carries_rendered_text() {
    let chain = ToolError::ParsingError("syntax".into()).into_chain_error();
    match chain {
        ChainError::ToolError(msg) => assert_eq!(msg, "Tool output parsing error: syntax"),
        _ => panic!("expected ToolError variant"),
    }
}
