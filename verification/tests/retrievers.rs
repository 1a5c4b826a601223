use langchain_core::json::parse_json;
use langchain_core::retrievers::{as_u64, effective_k};

#[test]
fn k_keyword_overrides_configured_k() {
    let kwargs = parse_json(r#"{"k": 7}"#).unwrap();
    assert_eq!(effective_k(&kwargs, 4), 7);
}

#[test]
fn k_falls_back_when_missing_or_not_unsigned() {
    assert_eq!(effective_k(&parse_json("{}").unwrap(), 4), 4);
    assert_eq!(effective_k(&parse_json(r#"{"k": -1}"#).unwrap(), 4), 4);
    assert_eq!(effective_k(&parse_json(r#"{"k": 2.5}"#).unwrap(), 4), 4);
    assert_eq!(effective_k(&parse_json(r#"{"k": "3"}"#).unwrap(), 4), 4);
}

#[test]
fn unsigned_values_read_like_serde() {
    assert_eq!(as_u64(&parse_json("18446744073709551615").unwrap()), Some(u64::MAX));
    assert_eq!(as_u64(&parse_json("0").unwrap()), Some(0));
    assert_eq!(as_u64(&parse_json("true").unwrap()), None);
}
