use langchain_core::errors::ChainError;
use langchain_core::json::parse_json;
use langchain_core::routing::{
    all_fallbacks_failed, assign_entries, branch_after_condition, branch_start, choose_route,
    fallback_after_failure, no_branch_matched, no_branch_provided, pick_entries, route_label_of, BranchStep,
    FallbackStep, RouteChoice,
};
use serde_json::Value;

fn entries(pairs: &[(&str, Value)]) -> Vec<(String, Value)> {
    pairs.iter().map(|(k, v)| (k.to_string(), v.clone())).collect()
}

fn lookup<'a>(es: &'a [(String, Value)], k: &str) -> Option<&'a Value> {
    es.iter().find(|(n, _)| n == k).map(|(_, v)| v)
}

#[test]
fn branch_runs_first_true_condition() {
    let n = 3;
    let conds = [false, true, true];
    let mut step = branch_start(n, true);
    loop {
        match step {
            BranchStep::TestCondition(i) => step = branch_after_condition(i, conds[i], n, true),
            _ => break,
        }
    }
    assert_eq!(step, BranchStep::RunBranch(1));
}

#[test]
fn branch_falls_to_default_or_fails() {
    assert_eq!(branch_start(0, true), BranchStep::RunDefault);
    assert_eq!(branch_start(0, false), BranchStep::NoMatch);
    assert_eq!(branch_after_condition(1, false, 2, true), BranchStep::RunDefault);
    assert_eq!(branch_after_condition(1, false, 2, false), BranchStep::NoMatch);
    assert_eq!(branch_after_condition(0, false, 2, false), BranchStep::TestCondition(1));
}

#[test]
fn branch_errors_have_their_messages() {
    match no_branch_matched() {
        ChainError::ValidationError(m) => assert_eq!(m, "No branch condition matched and no default runnable set"),
        _ => panic!("expected a validation error"),
    }
    match no_branch_provided() {
        ChainError::PromptError(m) => assert_eq!(m, "No branch matched and no default provided"),
        _ => panic!("expected a prompt error"),
    }
}

#[test]
fn fallbacks_are_tried_in_order() {
    assert_eq!(fallback_after_failure(0, 2), FallbackStep::RunFallback(0));
    assert_eq!(fallback_after_failure(1, 2), FallbackStep::RunFallback(1));
    assert_eq!(fallback_after_failure(2, 2), FallbackStep::Exhausted);
    assert_eq!(fallback_after_failure(0, 0), FallbackStep::Exhausted);
    match all_fallbacks_failed() {
        ChainError::LLMError(m) => assert_eq!(m, "All fallbacks failed"),
        _ => panic!("expected an LLM error"),
    }
}

#[test]
fn router_picks_named_route() {
    let input = parse_json(r#"{"destination": "math", "question": "1+1"}"#).unwrap();
    let routes = vec!["poetry".to_string(), "math".to_string()];
    assert_eq!(choose_route("destination", &input, &routes, false).unwrap(), RouteChoice::Route(1));
}

#[test]
fn router_uses_json_text_of_non_strings() {
    let input = parse_json(r#"{"destination": 7}"#).unwrap();
    assert_eq!(route_label_of(input.get("destination").unwrap()), "7");
    let routes = vec!["7".to_string()];
    assert_eq!(choose_route("destination", &input, &routes, false).unwrap(), RouteChoice::Route(0));
}

#[test]
fn router_default_and_errors() {
    let input = parse_json(r#"{"destination": "art"}"#).unwrap();
    let routes = vec!["math".to_string()];
    assert_eq!(choose_route("destination", &input, &routes, true).unwrap(), RouteChoice::Default);
    match choose_route("destination", &input, &routes, false) {
        Err(ChainError::ValidationError(m)) => {
            assert_eq!(m, "No route found for key 'art' and no default runnable set")
        }
        _ => panic!("expected a validation error"),
    }
    match choose_route("missing", &input, &routes, true) {
        Err(ChainError::ValidationError(m)) => assert_eq!(m, "Route key 'missing' not found in input"),
        _ => panic!("expected a validation error"),
    }
}

#[test]
fn pick_keeps_named_members_only() {
    let input = entries(&[("a", Value::from(1)), ("b", Value::from(2)), ("c", Value::from(3))]);
    let keys = vec!["c".to_string(), "a".to_string(), "zzz".to_string(), "a".to_string()];
    let out = pick_entries(&keys, &input);
    assert_eq!(out.len(), 2);
    assert_eq!(lookup(&out, "a"), Some(&Value::from(1)));
    assert_eq!(lookup(&out, "c"), Some(&Value::from(3)));
    assert_eq!(lookup(&out, "b"), None);
}

#[test]
fn pick_from_empty_input_is_empty() {
    let keys = vec!["a".to_string()];
    assert!(pick_entries(&keys, &Vec::new()).is_empty());
}

#[test]
fn assign_overrides_and_adds() {
    let input = entries(&[("question", Value::from("q")), ("n", Value::from(1))]);
    let added = entries(&[("n", Value::from(2)), ("answer", Value::from("a"))]);
    let out = assign_entries(input, &added);
    assert_eq!(out.len(), 3);
    assert_eq!(lookup(&out, "question"), Some(&Value::from("q")));
    assert_eq!(lookup(&out, "n"), Some(&Value::from(2)));
    assert_eq!(lookup(&out, "answer"), Some(&Value::from("a")));
}
