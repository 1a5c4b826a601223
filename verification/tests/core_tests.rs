use langchain_core::json::{parse_json, JsonNode};
use langchain_core::utils::{parse_json_markdown, stringify_value};
use langchain_core::errors::ChainError;
use langchain_core::output_parsers::{CommaSeparatedListOutputParser, JsonOutputParser, OutputParser, StrOutputParser};
use std::collections::HashMap;

#[test]
fn test_chain_error_llm_error_display() {
    let err = ChainError::LLMError("rate limited".into());
    let display = err.to_string();
    assert_eq!(display, "LLM error: rate limited");
}

#[test]
fn test_chain_error_from_io_error() {
    let io_err = std::io::Error::new(std::io::ErrorKind::NotFound, "file not found");
    let chain_err: ChainError = io_err.into();
    let display = chain_err.to_string();
    assert!(display.contains("IO error"));
}

#[test]
fn test_chain_error_from_io() {
    let io_err = std::io::Error::new(std::io::ErrorKind::NotFound, "file missing");
    let chain_err: ChainError = io_err.into();
    assert!(matches!(chain_err, ChainError::IOError(_)));
}

#[test]
fn core_tests_test_str_output_parser() {
    let parser = StrOutputParser;
    let result = parser.parse("hello world").unwrap();
    assert_eq!(result, "hello world");
}

#[test]
fn core_tests_test_json_output_parser_invalid() {
    let parser: JsonOutputParser<HashMap<String, String>> = JsonOutputParser::new();
    let result = parser.parse("not json");
    assert!(result.is_err());
}

#[test]
fn core_tests_test_comma_separated_list_output_parser() {
    let parser = CommaSeparatedListOutputParser;
    let result = parser.parse("a, b, c").unwrap();
    assert_eq!(result, vec!["a", "b", "c"]);
}

#[test]
fn core_tests_test_comma_separated_list_output_parser_empty() {
    let parser = CommaSeparatedListOutputParser;
    let result = parser.parse("").unwrap();
    assert_eq!(result, vec![""]); // split on "" returns [""]
}

#[test]
fn core_tests_test_comma_separated_list_output_parser_single() {
    let parser = CommaSeparatedListOutputParser;
    let result = parser.parse("single").unwrap();
    assert_eq!(result, vec!["single"]);
}

#[test]
fn core_tests_test_json_output_parser_valid() {
    let parser: JsonOutputParser<HashMap<String, String>> = JsonOutputParser::new();
    let result = parser.parse(r#"{"key": "value"}"#).unwrap();
    assert_eq!(result.get("key").unwrap(), "value");
}

fn json(text: &str) -> JsonNode {
    parse_json(text).unwrap()
}

#[test]
fn test_stringify_value() {
    assert_eq!(stringify_value(&json("\"hi\"")), "hi");
    assert_eq!(stringify_value(&json("42")), "42");
    assert_eq!(stringify_value(&json("null")), "null");
    let arr = json(r#"["a", "b"]"#);
    assert_eq!(stringify_value(&arr), "[a, b]");
    let obj = json(r#"{"k": "v"}"#);
    assert_eq!(stringify_value(&obj), "{k: v}");
}

#[test]
fn test_parse_json_markdown_wrapped() {
    let input = "```json\n{\"key\": \"value\"}\n```";
    let result = parse_json_markdown(input).unwrap();
    assert_eq!(result.text, json(r#"{"key": "value"}"#).text);
}

#[test]
fn test_parse_json_markdown_plain() {
    let input = "{\"key\": \"value\"}";
    let result = parse_json_markdown(input).unwrap();
    assert_eq!(result.text, json(r#"{"key": "value"}"#).text);
}

#[test]
fn core_tests_test_chain_error_from_serde_json() {
    let invalid = r#"{"invalid": }"#;
    let result: Result<serde_json::Value, ChainError> = serde_json::from_str(invalid).map_err(ChainError::from);
    assert!(result.is_err());
}
