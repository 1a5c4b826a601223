use langchain_core::schema::{extract_properties, extract_required_fields, fill_defaults, SchemaType};
use serde_json::Value;

fn json(text: &str) -> Value {
    serde_json::from_str(text).unwrap()
}

#[test]
fn required_fields_are_the_listed_strings() {
    let schema = json(r#"{"required": ["a", 3, "b"]}"#);
    assert_eq!(extract_required_fields(&schema), vec!["a".to_string(), "b".to_string()]);
    assert!(extract_required_fields(&json(r#"{"required": "a"}"#)).is_empty());
    assert!(extract_required_fields(&json("[1]")).is_empty());
}

#[test]
fn properties_are_described() {
    let schema = json(
        r#"{"required": ["name"], "properties": {
            "name": {"type": "string", "description": "who"},
            "age": {"type": "integer", "default": 3, "enum": [1, 2, 3]},
            "misc": {}
        }}"#,
    );
    let mut props = extract_properties(&schema);
    props.sort_by(|a, b| a.name.cmp(&b.name));
    assert_eq!(props.len(), 3);
    assert_eq!(props[0].name, "age");
    assert_eq!(props[0].prop_type, SchemaType::Integer);
    assert!(!props[0].required);
    assert_eq!(props[0].default, Some(Value::from(3)));
    assert_eq!(props[0].enum_values, Some(vec![Value::from(1), Value::from(2), Value::from(3)]));
    assert_eq!(props[1].name, "misc");
    assert_eq!(props[1].prop_type, SchemaType::Any);
    assert_eq!(props[2].name, "name");
    assert!(props[2].required);
    assert_eq!(props[2].description.as_deref(), Some("who"));
}

#[test]
fn defaults_fill_only_missing_fields() {
    let schema = json(r#"{"properties": {"a": {"default": 1}, "b": {"default": 2}, "c": {}}}"#);
    let mut value = json(r#"{"b": 5}"#);
    assert!(fill_defaults(&mut value, &schema).is_ok());
    assert_eq!(value, json(r#"{"a": 1, "b": 5}"#));
    let mut not_object = json("[1]");
    assert!(fill_defaults(&mut not_object, &schema).is_ok());
    assert_eq!(not_object, json("[1]"));
}

fn node(text: &str) -> langchain_core::json::JsonNode {
    langchain_core::json::parse_json(text).unwrap()
}

fn violation_message(value: &str, schema: &str) -> Option<String> {
    match langchain_core::schema::validate_json_against_schema(&node(value), &node(schema)) {
        Ok(()) => None,
        Err(langchain_core::errors::ChainError::ValidationError(m)) => Some(m),
        Err(_) => panic!("expected a validation error"),
    }
}

#[test]
fn schema_validation_accepts_conforming_values() {
    let schema = r#"{"type": "object", "required": ["name"], "properties": {"name": {"type": "string", "maxLength": 5}, "age": {"type": "integer", "minimum": 0}}}"#;
    assert_eq!(violation_message(r#"{"name": "Ann", "age": 3}"#, schema), None);
    assert_eq!(violation_message("7", "[1]"), None);
}

#[test]
fn schema_validation_reports_first_violation() {
    assert_eq!(violation_message("5", r#"{"type": "string"}"#), Some("Expected type 'string' but got value: Number(5)".to_string()));
    assert_eq!(violation_message(r#"{"a": 1}"#, r#"{"required": ["a", "b"]}"#), Some("Missing required field: b".to_string()));
    assert_eq!(
        violation_message(r#"{"age": "x"}"#, r#"{"properties": {"age": {"type": "integer"}}}"#),
        Some("Expected type 'integer' but got value: String(\"x\")".to_string())
    );
    assert_eq!(violation_message("1.5", r#"{"type": "integer"}"#), Some("Expected type 'integer' but got value: Number(1.5)".to_string()));
    assert_eq!(
        violation_message(r#"[1, "a"]"#, r#"{"items": {"type": "number"}}"#),
        Some("Expected type 'number' but got value: String(\"a\")".to_string())
    );
    assert_eq!(
        violation_message("3", r#"{"enum": [1, 2]}"#),
        Some("Value Number(3) not in enum [Number(1), Number(2)]".to_string())
    );
    assert_eq!(violation_message("3", r#"{"minimum": 5}"#), Some("Value 3 is less than minimum 5".to_string()));
    assert_eq!(violation_message("7.5", r#"{"maximum": 5}"#), Some("Value 7.5 is greater than maximum 5".to_string()));
    assert_eq!(violation_message(r#""abc""#, r#"{"maxLength": 2}"#), Some("String length 3 is greater than maxLength 2".to_string()));
    assert_eq!(violation_message(r#""a""#, r#"{"minLength": 2}"#), Some("String length 1 is less than minLength 2".to_string()));
}

fn coerced(value: &str, target: SchemaType) -> Result<String, String> {
    match langchain_core::schema::coerce_type(node(value), &target) {
        Ok(n) => Ok(n.text),
        Err(langchain_core::errors::ChainError::ValidationError(m)) => Err(m),
        Err(_) => panic!("expected a validation error"),
    }
}

#[test]
fn coerce_strings_to_numbers_and_booleans() {
    assert_eq!(coerced(r#""42""#, SchemaType::Number), Ok("42.0".to_string()));
    assert_eq!(coerced(r#""42""#, SchemaType::Integer), Ok("42".to_string()));
    assert_eq!(coerced(r#""4.5""#, SchemaType::Integer), Err("Cannot coerce '4.5' to integer".to_string()));
    assert_eq!(coerced(r#""abc""#, SchemaType::Number), Err("Cannot coerce 'abc' to number".to_string()));
    assert_eq!(coerced(r#""Yes""#, SchemaType::Boolean), Ok("true".to_string()));
    assert_eq!(coerced(r#""0""#, SchemaType::Boolean), Ok("false".to_string()));
    assert_eq!(coerced(r#""maybe""#, SchemaType::Boolean), Err("Cannot coerce 'maybe' to boolean".to_string()));
    assert_eq!(coerced("true", SchemaType::Boolean), Ok("true".to_string()));
}

#[test]
fn coerce_keeps_matching_values() {
    assert_eq!(coerced("7", SchemaType::Number), Ok("7".to_string()));
    assert_eq!(coerced("[1,2]", SchemaType::Array), Ok("[1,2]".to_string()));
    assert_eq!(coerced(r#"{"a":1}"#, SchemaType::Object), Ok(r#"{"a":1}"#.to_string()));
    assert_eq!(coerced(r#"{"a":1}"#, SchemaType::Any), Ok(r#"{"a":1}"#.to_string()));
}

#[test]
fn coerce_reshapes_other_values() {
    assert_eq!(coerced("5", SchemaType::Array), Ok("[5]".to_string()));
    assert_eq!(coerced("5", SchemaType::String), Ok(r#""5""#.to_string()));
    assert_eq!(coerced(r#""hi""#, SchemaType::String), Ok(r#""hi""#.to_string()));
    assert_eq!(coerced("[1]", SchemaType::Null), Ok("null".to_string()));
    assert_eq!(coerced("5", SchemaType::Object), Err("Cannot coerce Number(5) to object".to_string()));
    assert_eq!(coerced("null", SchemaType::Number), Err("Cannot coerce Null to number".to_string()));
}
