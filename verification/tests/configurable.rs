use langchain_core::configurable::{
    resolve_alternative, ConfigurableField, ConfigurableFieldKind, ConfigurableFieldMultiOption,
    ConfigurableFieldSingleOption, ConfigurableFields,
};
use serde_json::Value;
use std::collections::HashMap;

#[test]
fn test_configurable_field_builder() {
    let field = ConfigurableField::new("temperature")
        .with_name("LLM Temperature")
        .with_description("The temperature of the LLM")
        .with_shared(true);
    assert_eq!(field.id, "temperature");
    assert_eq!(field.name, "LLM Temperature");
    assert_eq!(field.description, "The temperature of the LLM");
    assert!(field.is_shared);
}

#[test]
fn test_configurable_alternatives_invoke() {
    // The "prompt" selector names the "poem" alternative; "joke" is the default key.
    let keys = vec!["poem".to_string()];
    let chosen = resolve_alternative("prompt", Some("poem"), "joke", &keys).expect("resolve should succeed");
    assert_eq!(chosen, Some(0));
}

#[test]
fn test_configurable_fields() {
    let mut options = HashMap::new();
    options.insert("a".to_string(), Value::String("option_a".into()));
    options.insert("b".to_string(), Value::String("option_b".into()));
    let fields = ConfigurableFields::new()
        .with_field("temperature", ConfigurableField::new("temperature"))
        .with_single_option("model", ConfigurableFieldSingleOption::new("model", options, "a"));
    assert_eq!(fields.fields.len(), 2);
}

#[test]
fn test_unknown_alternative_returns_error() {
    let keys: Vec<String> = Vec::new();
    let result = resolve_alternative("model", Some("nonexistent"), "default", &keys);
    assert!(result.is_err());
}

#[test]
fn test_multi_option_field() {
    let mut options = HashMap::new();
    options.insert("x".to_string(), Value::String("opt_x".into()));
    options.insert("y".to_string(), Value::String("opt_y".into()));
    let field = ConfigurableFieldMultiOption::new("features", options, vec!["x".into()]);
    assert_eq!(field.id, "features");
    assert_eq!(field.default, vec!["x".to_string()]);
}

#[test]
fn test_configurable_field_default() {
    let field = ConfigurableField::new("model").with_default(Value::String("gpt-4".into()));
    assert_eq!(field.default, Some(Value::String("gpt-4".into())));
}

#[test]
fn test_configurable_alternatives_default_alternative() {
    let keys: Vec<String> = Vec::new();
    let runnable = resolve_alternative("mode", Some("default"), "default", &keys);
    assert!(runnable.is_ok());
}

#[test]
fn test_configurable_fields_builder() {
    let fields = ConfigurableFields::new()
        .with_field("temperature", ConfigurableField::new("temperature").with_name("Temperature"))
        .with_field("model", ConfigurableField::new("model").with_name("Model Name"));
    assert_eq!(fields.fields.len(), 2);
}

#[test]
fn test_configurable_single_option_with_shared() {
    let mut options = HashMap::new();
    options.insert("fast".to_string(), Value::String("gpt-3.5".into()));
    options.insert("slow".to_string(), Value::String("gpt-4".into()));
    let field = ConfigurableFieldSingleOption::new("model", options, "fast")
        .with_shared(true)
        .with_name("Model Selection");
    assert!(field.is_shared);
    assert_eq!(field.name, "Model Selection");
}

#[test]
fn fields_with_same_key_replace_in_place() {
    let fields = ConfigurableFields::new()
        .with_field("a", ConfigurableField::new("first"))
        .with_field("b", ConfigurableField::new("second"))
        .with_field("a", ConfigurableField::new("third"));
    assert_eq!(fields.fields.len(), 2);
    assert_eq!(fields.fields[0].0, "a");
    match &fields.fields[0].1 {
        ConfigurableFieldKind::Simple(f) => assert_eq!(f.id, "third"),
        _ => panic!("expected a simple field"),
    }
}

#[test]
fn alternative_resolution_cases() {
    let keys = vec!["x".to_string(), "y".to_string()];
    assert_eq!(resolve_alternative("f", None, "d", &keys).unwrap(), None);
    assert_eq!(resolve_alternative("f", Some("d"), "d", &keys).unwrap(), None);
    assert_eq!(resolve_alternative("f", Some("y"), "d", &keys).unwrap(), Some(1));
    match resolve_alternative("f", Some("z"), "d", &keys) {
        Err(e) => assert_eq!(e.to_string(), "Configuration error: Unknown alternative 'z' for field 'f'"),
        Ok(_) => panic!("expected an error"),
    }
}
