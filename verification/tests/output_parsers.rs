use langchain_core::output_parsers::{fixing_start, fixing_step, FixingAction, FixingEvent, FixingPhase};
use langchain_core::output_parsers::RegexOutputParser;
use langchain_core::output_parsers::{fixing_exhausted, fixing_needs_async, fixing_request};
use langchain_core::errors::ChainError;
use langchain_core::output_parsers::{
    CommaSeparatedListOutputParser, JsonOutputParser, MarkdownListOutputParser, NumberedListOutputParser,
    OutputParser, StrOutputParser, TransformOutputParser,
};
use langchain_core::output_parsers::{
    JsonOutputFunctionsParser, JsonOutputToolsParser, OpenAIFunctionsOutputParser, OpenAIToolsOutputParser,
};
use langchain_core::json::{JsonKind, JsonNode};
use std::collections::HashMap;
use std::sync::Arc;
use langchain_core::output_parsers::DatetimeOutputParser;
use chrono::{Datelike, Timelike};

#[test]
fn test_markdown_list_output_parser() {
    let parser = MarkdownListOutputParser;
    let text = "- item1\n- item2\n- item3";
    let result = parser.parse(text).unwrap();
    assert_eq!(result, vec!["item1", "item2", "item3"]);
}

#[test]
fn test_markdown_list_output_parser_asterisk() {
    let parser = MarkdownListOutputParser;
    let text = "* alpha\n* beta";
    let result = parser.parse(text).unwrap();
    assert_eq!(result, vec!["alpha", "beta"]);
}

#[test]
fn test_numbered_list_output_parser() {
    let parser = NumberedListOutputParser;
    let text = "1. first\n2. second\n3. third";
    let result = parser.parse(text).unwrap();
    assert_eq!(result, vec!["first", "second", "third"]);
}

#[test]
fn test_numbered_list_output_parser_paren() {
    let parser = NumberedListOutputParser;
    let text = "1) one\n2) two";
    let result = parser.parse(text).unwrap();
    assert_eq!(result, vec!["one", "two"]);
}

#[test]
fn test_transform_output_parser() {
    let parser = TransformOutputParser::new(Arc::new(|s: String| Ok(s)));
    let result = parser.parse("  hello world  ").unwrap();
    assert_eq!(result, "hello world");
}

#[test]
fn test_transform_output_parser_uppercase() {
    let parser = TransformOutputParser::new(Arc::new(|s: String| Ok(s.to_uppercase())));
    let result = parser.parse("hello").unwrap();
    assert_eq!(result, "HELLO");
}

#[test]
fn test_str_output_parser_empty() {
    let parser = StrOutputParser;
    let result = parser.parse("").unwrap();
    assert_eq!(result, "");
}

#[test]
fn test_markdown_list_output_parser_no_items() {
    let parser = MarkdownListOutputParser;
    let result = parser.parse("just text").unwrap();
    assert!(result.is_empty());
}

#[test]
fn test_numbered_list_output_parser_no_items() {
    let parser = NumberedListOutputParser;
    let result = parser.parse("plain text").unwrap();
    assert!(result.is_empty());
}

#[test]
fn test_transform_output_parser_trim() {
    let parser = TransformOutputParser::new(Arc::new(|s: String| Ok(s.trim().to_string())));
    let result = parser.parse("  spaced  ").unwrap();
    assert_eq!(result, "spaced");
}

#[test]
fn output_parsers_test_str_output_parser() {
    let parser = StrOutputParser;
    let result = parser.parse("hello world").unwrap();
    assert_eq!(result, "hello world");
}

#[test]
fn output_parsers_test_comma_separated_list_output_parser() {
    let parser = CommaSeparatedListOutputParser;
    let result = parser.parse("a, b, c").unwrap();
    assert_eq!(result, vec!["a", "b", "c"]);
}

#[test]
fn output_parsers_test_comma_separated_list_output_parser_empty() {
    let parser = CommaSeparatedListOutputParser;
    let result = parser.parse("").unwrap();
    assert_eq!(result, vec![""]);
}

#[test]
fn output_parsers_test_comma_separated_list_output_parser_single() {
    let parser = CommaSeparatedListOutputParser;
    let result = parser.parse("single").unwrap();
    assert_eq!(result, vec!["single"]);
}

#[test]
fn output_parsers_test_json_output_parser_invalid() {
    let parser: JsonOutputParser<HashMap<String, String>> = JsonOutputParser::new();
    let result = parser.parse("not json");
    assert!(result.is_err());
}

#[test]
fn test_json_output_parser_empty() {
    let parser: JsonOutputParser<HashMap<String, String>> = JsonOutputParser::new();
    let result = parser.parse("");
    assert!(result.is_err());
}

#[test]
fn json_output_parser_valid_trimmed() {
    let parser: JsonOutputParser<HashMap<String, String>> = JsonOutputParser::new();
    let result = parser.parse("  {\"key\": \"value\"}  ").unwrap();
    assert_eq!(result.get("key").unwrap(), "value");
}

#[test]
fn markdown_list_parser_trims_and_skips() {
    let parser = MarkdownListOutputParser;
    let result = parser.parse("intro\n  -   spaced  \r\n*x\n* y").unwrap();
    assert_eq!(result, vec!["spaced", "y"]);
}

#[test]
fn numbered_list_parser_indented_and_multi_digit() {
    let parser = NumberedListOutputParser;
    let result = parser.parse("  10.   ten \nx. no\n3)three").unwrap();
    assert_eq!(result, vec!["ten"]);
}

#[test]
fn comma_list_parser_unicode_whitespace() {
    let parser = CommaSeparatedListOutputParser;
    let result = parser.parse("\u{3000}a ,\tb,").unwrap();
    assert_eq!(result, vec!["a", "b", ""]);
}

#[test]
fn format_instructions_are_fixed_texts() {
    assert_eq!(StrOutputParser.get_format_instructions(), "Return a plain text string.");
    assert_eq!(CommaSeparatedListOutputParser.get_format_instructions(), "Return a comma-separated list.");
}

fn member<'a>(v: &'a JsonNode, key: &str) -> &'a JsonNode {
    v.get(key).unwrap()
}

#[test]
fn test_openai_functions_output_parser() {
    let parser = OpenAIFunctionsOutputParser;
    let text = r#"{"function_call": {"name": "get_weather", "arguments": "{\"city\": \"SF\"}"}}"#;
    let result = parser.parse(text).unwrap();
    assert_eq!(member(&result, "name").as_str(), Some("get_weather"));
    assert_eq!(member(&result, "arguments").as_str(), Some("{\"city\": \"SF\"}"));
}

#[test]
fn test_openai_functions_output_parser_no_function_call() {
    let parser = OpenAIFunctionsOutputParser;
    let text = r#"{"result": "hello"}"#;
    let result = parser.parse(text).unwrap();
    assert_eq!(member(&result, "result").as_str(), Some("hello"));
}

#[test]
fn test_openai_tools_output_parser() {
    let parser = OpenAIToolsOutputParser;
    let text = r#"{"tool_calls": [{"id": "1", "function": {"name": "search", "arguments": "{\"q\": \"rust\"}"}}]}"#;
    let result = parser.parse(text).unwrap();
    match &result.kind {
        JsonKind::Array(items) => assert_eq!(member(&items[0], "id").as_str(), Some("1")),
        _ => panic!("expected an array"),
    }
}

#[test]
fn test_openai_tools_output_parser_no_tool_calls() {
    let parser = OpenAIToolsOutputParser;
    let text = r#"{"message": "hi"}"#;
    let result = parser.parse(text).unwrap();
    assert_eq!(member(&result, "message").as_str(), Some("hi"));
}

#[test]
fn test_json_output_functions_parser() {
    let parser = JsonOutputFunctionsParser;
    let text = r#"{"arguments": "{\"key\": \"value\"}"}"#;
    let result = parser.parse(text).unwrap();
    assert_eq!(member(&result, "key").as_str(), Some("value"));
}

#[test]
fn test_json_output_functions_parser_object_args() {
    let parser = JsonOutputFunctionsParser;
    let text = r#"{"arguments": {"key": "value"}}"#;
    let result = parser.parse(text).unwrap();
    assert_eq!(member(&result, "key").as_str(), Some("value"));
}

#[test]
fn test_json_output_tools_parser() {
    let parser = JsonOutputToolsParser;
    let text = r#"{"tool_calls": [{"function": {"arguments": "{\"x\": 1}"}}, {"function": {"arguments": "{\"y\": 2}"}}]}"#;
    let result = parser.parse(text).unwrap();
    assert_eq!(result.len(), 2);
    assert_eq!(member(&result[0], "x").text, "1");
    assert_eq!(member(&result[1], "y").text, "2");
}

#[test]
fn test_json_output_tools_parser_fallback() {
    let parser = JsonOutputToolsParser;
    let text = r#"{"key": "value"}"#;
    let result = parser.parse(text).unwrap();
    assert_eq!(result.len(), 1);
    assert_eq!(member(&result[0], "key").as_str(), Some("value"));
}

#[test]
fn json_parsers_report_invalid_json() {
    let parser = OpenAIFunctionsOutputParser;
    match parser.parse("not json") {
        Err(langchain_core::errors::ChainError::ParserError(m)) => assert!(!m.is_empty()),
        _ => panic!("expected a parser error"),
    }
}

#[test]
fn json_output_functions_parser_bad_string_arguments() {
    let parser = JsonOutputFunctionsParser;
    assert!(parser.parse(r#"{"arguments": "{oops"}"#).is_err());
}

#[test]
fn json_output_tools_parser_skips_calls_without_arguments() {
    let parser = JsonOutputToolsParser;
    let text = r#"{"tool_calls": [{"id": 1}, {"function": {"arguments": {"z": true}}}]}"#;
    let result = parser.parse(text).unwrap();
    assert_eq!(result.len(), 1);
    assert_eq!(member(&result[0], "z").text, "true");
}

#[test]
fn datetime_parser_reads_formats() {
    let p = DatetimeOutputParser;
    let d = p.parse(" 2024-01-02 03:04:05 ").unwrap();
    assert_eq!((d.year(), d.month(), d.day(), d.hour(), d.minute(), d.second()), (2024, 1, 2, 3, 4, 5));
    let z = p.parse("2024-01-02T03:04:05+02:00").unwrap();
    assert_eq!(z.hour(), 3);
    match p.parse("not a date") {
        Err(langchain_core::errors::ChainError::ParserError(m)) => assert_eq!(m, "Could not parse datetime: not a date"),
        _ => panic!("expected a parser error"),
    }
}

#[test]
fn output_parsers_test_json_output_parser_valid() {
    let parser: JsonOutputParser<serde_json::Value> = JsonOutputParser::new();
    let result = parser.parse(r#"{"key": "value"}"#).unwrap();
    assert_eq!(result["key"], "value");
}

#[test]
fn regex_output_parser_names_groups() {
    let p = RegexOutputParser::new(r"(\w+)=(\d+)(x)?");
    let m = OutputParser::parse(&p, "ignore a=12 b=3").unwrap();
    assert_eq!(m.len(), 2);
    assert_eq!(m.get("group_0").map(|s| s.as_str()), Some("a"));
    assert_eq!(m.get("group_1").map(|s| s.as_str()), Some("12"));
    assert_eq!(p.parse_pairs("no match here!").unwrap(), Vec::<(String, String)>::new());
    assert_eq!(p.get_format_instructions(), r"Return text matching the regex pattern: (\w+)=(\d+)(x)?");
}

#[test]
fn regex_output_parser_uses_keys() {
    let p = RegexOutputParser::new(r"(\w+): (\w+)").with_keys(vec!["name".into(), "value".into(), "extra".into()]);
    let pairs = p.parse_pairs("héllo: wörld").unwrap();
    assert_eq!(pairs, vec![("name".to_string(), "héllo".to_string()), ("value".to_string(), "wörld".to_string())]);
    assert!(RegexOutputParser::try_new("(unclosed").is_none());
    let bad = RegexOutputParser { regex: "(".into(), output_keys: vec![] };
    assert!(bad.parse_pairs("x").is_err());
}

#[test]
fn json_parse_partial_gives_value_or_default() {
    let parser: JsonOutputParser<HashMap<String, i64>> = JsonOutputParser::new();
    let ok = parser.parse_partial(r#"{"a": 1}"#).unwrap();
    assert_eq!(ok.get("a"), Some(&1));
    let fallback = parser.parse_partial("{\"a\": ").unwrap();
    assert!(fallback.is_empty());
    let wrong_shape = parser.parse_partial("[1, 2]").unwrap();
    assert!(wrong_shape.is_empty());
}

#[test]
fn fixing_request_appends_error_text() {
    let e = ChainError::ParserError("bad json".into());
    assert_eq!(fixing_request("{oops", &e), "{oops\nError: Parser error: bad json");
}

#[test]
fn fixing_errors_have_their_messages() {
    match fixing_exhausted() {
        ChainError::ParserError(m) => assert_eq!(m, "OutputFixingParser: all retry attempts failed"),
        _ => panic!("expected a parser error"),
    }
    match fixing_needs_async() {
        ChainError::ParserError(m) => {
            assert_eq!(m, "OutputFixingParser requires async runtime; use parse_with_retry instead")
        }
        _ => panic!("expected a parser error"),
    }
}

#[test]
fn fixing_loop_repairs_then_accepts() {
    let (s, a) = fixing_start("bad", 2);
    assert!(matches!(a, FixingAction::Parse(ref t) if t == "bad"));
    let (s, a) = fixing_step(s, FixingEvent::ParseFailed(ChainError::ParserError("nope".to_string())));
    assert!(matches!(a, FixingAction::Parse(ref t) if t == "bad"));
    assert_eq!(s.phase, FixingPhase::RoundStart);
    let err = ChainError::ParserError("nope".to_string());
    let expected = format!("bad\nError: {}", err.to_string());
    let (s, a) = fixing_step(s, FixingEvent::ParseFailed(err));
    match a {
        FixingAction::Repair(req) => assert_eq!(req, expected),
        _ => panic!("expected a repair request"),
    }
    let (s, a) = fixing_step(s, FixingEvent::RepairOk("good".to_string()));
    assert!(matches!(a, FixingAction::Parse(ref t) if t == "good"));
    let (_, a) = fixing_step(s, FixingEvent::ParseOk);
    assert!(matches!(a, FixingAction::Accept));
}

#[test]
fn fixing_loop_gives_up_after_max_retries() {
    let fail = || FixingEvent::ParseFailed(ChainError::ParserError("x".to_string()));
    let (s, _) = fixing_start("t", 1);
    let (s, _) = fixing_step(s, fail());
    let (s, a) = fixing_step(s, fail());
    assert!(matches!(a, FixingAction::Repair(_)));
    let (s, _) = fixing_step(s, FixingEvent::RepairOk("u".to_string()));
    let (_, a) = fixing_step(s, fail());
    match a {
        FixingAction::Fail(ChainError::ParserError(m)) => assert_eq!(m, "OutputFixingParser: all retry attempts failed"),
        _ => panic!("expected the exhausted error"),
    }
    let (s, _) = fixing_start("t", 0);
    let (_, a) = fixing_step(s, fail());
    assert!(matches!(a, FixingAction::Fail(_)));
    let (s, _) = fixing_start("t", 3);
    let (s, _) = fixing_step(s, fail());
    let (s, _) = fixing_step(s, fail());
    let (_, a) = fixing_step(s, FixingEvent::RepairFailed(ChainError::ParserError("down".to_string())));
    match a {
        FixingAction::Fail(ChainError::ParserError(m)) => assert_eq!(m, "down"),
        _ => panic!("expected the repair error"),
    }
}
