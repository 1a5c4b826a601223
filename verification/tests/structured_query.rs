use langchain_core::structured_query::{DefaultQueryConstructor, QueryConstructor, StructuredQuery};
use serde_json::Value;

fn obj(key: &str, value: &str) -> Value {
    let mut m = serde_json::Map::new();
    m.insert(key.to_string(), Value::String(value.to_string()));
    Value::Object(m)
}

#[test]
fn test_default_query_constructor() {
    let constructor = DefaultQueryConstructor::new();
    let query = constructor.construct("What is Rust?").unwrap();
    assert_eq!(query.query, "What is Rust?");
    assert!(query.filter.is_none());
    assert!(query.limit.is_none());
}

#[test]
fn test_structured_query_defaults() {
    let query = StructuredQuery::new("hello");
    assert_eq!(query.query, "hello");
    assert!(query.filter.is_none());
    assert!(query.limit.is_none());
}

#[test]
fn test_default_query_constructor_new() {
    let c = DefaultQueryConstructor::new();
    assert!(c.construct("q").is_ok());
}

#[test]
fn test_structured_query_builder() {
    let query = StructuredQuery::new("find docs").with_filter(obj("category", "tech")).with_limit(10);
    assert_eq!(query.query, "find docs");
    assert!(query.filter.is_some());
    assert_eq!(query.limit, Some(10));
}

#[test]
fn test_structured_query_with_filter_only() {
    let query = StructuredQuery::new("find docs").with_filter(obj("status", "active"));
    assert!(query.filter.is_some());
    assert!(query.limit.is_none());
}

#[test]
fn test_structured_query_with_all_fields() {
    let query = StructuredQuery::new("search").with_filter(obj("type", "article")).with_limit(25);
    assert_eq!(query.limit, Some(25));
    assert_eq!(query.filter, Some(obj("type", "article")));
}

#[test]
fn test_query_constructor_send_sync() {
    fn assert_send<T: Send>() {}
    fn assert_sync<T: Sync>() {}
    assert_send::<DefaultQueryConstructor>();
    assert_sync::<DefaultQueryConstructor>();
}
