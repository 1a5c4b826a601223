use langchain_core::json::{parse_json, JsonKind, JsonNode};
use langchain_core::utils::{
    enforce_stop_tokens, flatten_dicts, get_from_dict_or_env, get_token_ids, parse_json_markdown, stringify_value,
};

#[test]
fn test_get_token_ids() {
    let ids = get_token_ids("hello");
    // len 5 → ceil(5/4) = 2
    assert_eq!(ids.len(), 2);
    assert_eq!(ids, vec![0, 1]);
}

#[test]
fn test_get_token_ids_empty() {
    let ids = get_token_ids("");
    assert_eq!(ids.len(), 0);
}

#[test]
fn test_get_token_ids_long() {
    let ids = get_token_ids("hello world this is a test string");
    assert_eq!(ids.len(), 9); // len 35 → ceil(35/4) = 9
}

#[test]
fn test_enforce_stop_tokens_single() {
    let text = "hello world stop here";
    let stops = vec!["stop".into()];
    assert_eq!(enforce_stop_tokens(text, &stops), "hello world ");
}

#[test]
fn test_enforce_stop_tokens_no_stop() {
    let text = "hello world";
    let stops = vec!["stop".into()];
    assert_eq!(enforce_stop_tokens(text, &stops), "hello world");
}

#[test]
fn test_enforce_stop_tokens_multiple() {
    let text = "hello stop and also halt";
    let stops = vec!["stop".into(), "halt".into()];
    let result = enforce_stop_tokens(text, &stops);
    assert_eq!(result, "hello ");
}

#[test]
fn test_enforce_stop_tokens_empty() {
    let text = "hello";
    let stops: Vec<String> = vec![];
    assert_eq!(enforce_stop_tokens(text, &stops), "hello");
}

#[test]
fn test_enforce_stop_tokens_first_wins() {
    let text = "hello stop and halt here";
    let stops = vec!["stop".into(), "halt".into()];
    let result = enforce_stop_tokens(text, &stops);
    assert_eq!(result, "hello ");
}

#[test]
fn test_enforce_stop_tokens_empty_text() {
    let text = "";
    let stops = vec!["stop".into()];
    assert_eq!(enforce_stop_tokens(text, &stops), "");
}

#[test]
fn get_token_ids_counts_utf8_bytes() {
    // "é" is two bytes in UTF-8, so three of them are six bytes → 2 ids.
    assert_eq!(get_token_ids("ééé"), vec![0, 1]);
}

#[test]
fn enforce_stop_tokens_cuts_at_earliest_token() {
    let stops = vec!["cd".to_string(), "bc".to_string()];
    assert_eq!(enforce_stop_tokens("abcd", &stops), "a");
}

#[test]
fn enforce_stop_tokens_later_token_cuts_shorter_text() {
    let stops = vec!["c".to_string(), "a".to_string()];
    assert_eq!(enforce_stop_tokens("xaxc", &stops), "x");
}

#[test]
fn enforce_stop_tokens_empty_token_cuts_everything() {
    let stops = vec!["".to_string()];
    assert_eq!(enforce_stop_tokens("abc", &stops), "");
}

#[test]
fn enforce_stop_tokens_non_ascii() {
    let stops = vec!["ü".to_string()];
    assert_eq!(enforce_stop_tokens("grüße", &stops), "gr");
}

fn entries_of(json: &str) -> Vec<(String, JsonNode)> {
    match parse_json(json).unwrap().kind {
        JsonKind::Object(es) => es,
        _ => panic!("not an object"),
    }
}

fn flat_get<'a>(flat: &'a [(String, String)], key: &str) -> Option<&'a str> {
    flat.iter().rev().find(|(k, _)| k == key).map(|(_, v)| v.as_str())
}

#[test]
fn test_flatten_dicts_empty() {
    let dict: Vec<(String, JsonNode)> = Vec::new();
    let flat = flatten_dicts(&dict);
    assert!(flat.is_empty());
}

#[test]
fn test_flatten_dicts_flat() {
    let dict = entries_of(r#"{"key": "val"}"#);
    let flat = flatten_dicts(&dict);
    assert_eq!(flat_get(&flat, "key").unwrap(), "val");
}

#[test]
fn test_flatten_dicts_nested() {
    let dict = entries_of(r#"{"parent": {"sub": "v"}}"#);
    let flat = flatten_dicts(&dict);
    assert_eq!(flat_get(&flat, "parent.sub").unwrap(), "v");
}

#[test]
fn test_flatten_dicts_nested_object() {
    let dict = entries_of(r#"{"a": {"x": "y"}}"#);
    let flat = flatten_dicts(&dict);
    assert_eq!(flat_get(&flat, "a.x").unwrap(), "y");
}

#[test]
fn test_get_from_dict_or_env_uses_default() {
    let result = get_from_dict_or_env("key", "NONEXISTENT_ENV_XYZ", None, Some("default_val"));
    assert_eq!(result.unwrap(), "default_val");
}

#[test]
fn test_get_from_dict_or_env_fails_without_default() {
    let result = get_from_dict_or_env("key", "NONEXISTENT_ENV_XYZ_2", None, None);
    assert!(result.is_err());
}

#[test]
fn test_get_from_dict_or_env_uses_env() {
    let result = get_from_dict_or_env("key", "TEST_OPENCODE_KEY", Some("env_value"), Some("fallback"));
    assert_eq!(result.unwrap(), "env_value");
}

#[test]
fn missing_setting_message_names_both() {
    match get_from_dict_or_env("api_key", "API_KEY", None, None) {
        Err(e) => assert_eq!(e.to_string(), "Validation error: Missing api_key and env var API_KEY"),
        Ok(_) => panic!("expected an error"),
    }
}

#[test]
fn stringify_value_renders_nested_values() {
    let v = parse_json(r#"{"a": [1, "x", null, true], "b": {"c": 2.5}}"#).unwrap();
    assert_eq!(stringify_value(&v), "{a: [1, x, null, true], b: {c: 2.5}}");
    assert_eq!(stringify_value(&parse_json("\"plain\"").unwrap()), "plain");
    assert_eq!(stringify_value(&parse_json("[]").unwrap()), "[]");
}

#[test]
fn flatten_dicts_renders_other_members() {
    let dict = entries_of(r#"{"n": 3, "o": {"k": [1, 2], "s": "t"}, "s": "x"}"#);
    let flat = flatten_dicts(&dict);
    assert_eq!(
        flat,
        vec![
            ("n".to_string(), "3".to_string()),
            ("o.k".to_string(), "[1,2]".to_string()),
            ("o.s".to_string(), "t".to_string()),
            ("s".to_string(), "x".to_string()),
        ]
    );
}

#[test]
fn parse_json_markdown_reads_fenced_and_bare_json() {
    let fenced = "Here it is:\n```json\n{\"a\": 1}\n```\nthanks";
    let v = parse_json_markdown(fenced).unwrap();
    assert_eq!(v.text, "{\"a\":1}");
    let bare = parse_json_markdown("  [1, 2] ").unwrap();
    assert_eq!(bare.text, "[1,2]");
    let untagged = parse_json_markdown("```\n\"s\"\n```").unwrap();
    assert_eq!(untagged.text, "\"s\"");
    match parse_json_markdown("```json\nnot json\n```") {
        Err(e) => assert!(e.to_string().starts_with("Parser error: ")),
        Ok(_) => panic!("expected a parse error"),
    }
}
