use langchain_core::tracers::{Run, RunStatus, RunType};
use serde_json::Value;

fn new_run(name: &str, run_type: RunType, parent: Option<uuid::Uuid>) -> Run {
    Run::new(uuid::Uuid::new_v4(), name, run_type, parent, Value::Null)
}

#[test]
fn run_new_is_running() {
    let run = new_run("test", RunType::Chain, None);
    assert_eq!(run.status, RunStatus::Running);
    assert!(run.end_time.is_none());
    assert_eq!(run.events.len(), 1);
    assert_eq!(run.events[0].name, "start");
}

#[test]
fn run_succeed_sets_status() {
    let mut run = new_run("test", RunType::Llm, None);
    run.succeed(serde_json::from_str(r#"{"result": "ok"}"#).unwrap());
    assert_eq!(run.status, RunStatus::Succeeded);
    assert!(run.end_time.is_some());
    assert!(run.outputs.is_some());
    assert!(run.error.is_none());
}

#[test]
fn run_fail_sets_error() {
    let mut run = new_run("test", RunType::Tool, None);
    run.fail("something broke");
    assert_eq!(run.status, RunStatus::Failed);
    assert!(run.end_time.is_some());
    assert_eq!(run.error.as_deref(), Some("something broke"));
}

#[test]
fn run_cancel_sets_status() {
    let mut run = new_run("test", RunType::Agent, None);
    run.cancel();
    assert_eq!(run.status, RunStatus::Cancelled);
    assert!(run.end_time.is_some());
}

#[test]
fn run_elapsed_returns_duration() {
    let mut run = new_run("test", RunType::Chain, None);
    assert!(run.elapsed().is_none());
    run.succeed(Value::Null);
    assert!(run.elapsed().is_some());
}

#[test]
fn run_add_child() {
    let mut parent = new_run("parent", RunType::Chain, None);
    let child = new_run("child", RunType::Tool, Some(parent.id));
    parent.add_child_run(child);
    assert_eq!(parent.child_runs.len(), 1);
}

#[test]
fn run_ending_records_last_event_at_end_time() {
    let mut run = new_run("t", RunType::Chain, None);
    run.fail("boom");
    assert_eq!(run.events.len(), 2);
    assert_eq!(run.events[0].name, "start");
    assert_eq!(run.events[1].name, "error");
    assert_eq!(Some(run.events[1].time), run.end_time);
    assert_eq!(run.events[0].time, run.start_time);
    let end = run.end_time.unwrap();
    assert_eq!(run.elapsed(), Some(end as i128 - run.start_time as i128));
    assert!(run.outputs.is_none());
}

#[test]
fn run_new_has_empty_metadata_and_keeps_inputs() {
    let inputs: Value = serde_json::from_str(r#"{"input": "hello"}"#).unwrap();
    let run = Run::new(uuid::Uuid::new_v4(), "test", RunType::Chain, None, inputs.clone());
    assert_eq!(run.inputs, inputs);
    assert_eq!(run.metadata, serde_json::from_str::<Value>("{}").unwrap());
    assert!(run.tags.is_empty());
    assert_eq!(run.name, "test");
}
