use langchain_core::agents::{AgentAction, AgentActionMessageLog, AgentFinish, AgentOutput, AgentStep};
use langchain_core::messages::{BaseMessage, MessageType};
use std::collections::HashMap;

#[test]
fn test_agent_action_new() {
    let action = AgentAction::new("search", "rust lang", "I need to search");
    assert_eq!(action.tool, "search");
    assert_eq!(action.tool_input, "rust lang");
    assert_eq!(action.log, "I need to search");
}

#[test]
fn test_agent_finish_new() {
    let rv = HashMap::from([("output".to_string(), "42".to_string())]);
    let finish = AgentFinish::new(rv, "Final Answer: 42");
    assert_eq!(finish.return_values.get("output").map(|s| s.as_str()), Some("42"));
    assert_eq!(finish.log, "Final Answer: 42");
}

#[test]
fn test_agent_step_new() {
    let action = AgentAction::new("calc", "1+1", "thinking");
    let step = AgentStep::new(action, "2");
    assert_eq!(step.observation, "2");
}

#[test]
fn test_agent_action_message_log_new() {
    let action = AgentAction::new("tool", "input", "log");
    let logs = vec![BaseMessage::new("thinking", MessageType::AI)];
    let aml = AgentActionMessageLog::new(action, logs);
    assert_eq!(aml.message_logs.len(), 1);
}

#[test]
fn test_agent_output_action() {
    let action = AgentAction::new("calc", "2+2", "calculating");
    let output = AgentOutput::Action(action);
    match output {
        AgentOutput::Action(a) => {
            assert_eq!(a.tool, "calc");
            assert_eq!(a.tool_input, "2+2");
        }
        _ => panic!("expected Action"),
    }
}

#[test]
fn test_agent_output_finish() {
    let rv = HashMap::from([("output".into(), "42".into())]);
    let finish = AgentFinish::new(rv, "answer");
    let output = AgentOutput::Finish(finish);
    match output {
        AgentOutput::Finish(f) => {
            assert_eq!(f.log, "answer");
            assert_eq!(f.return_values.get("output").unwrap(), "42");
        }
        _ => panic!("expected Finish"),
    }
}

#[test]
fn test_agent_step_with_empty_observation() {
    let action = AgentAction::new("tool", "input", "log");
    let step = AgentStep::new(action, "");
    assert_eq!(step.observation, "");
}

#[test]
fn test_agent_action_with_empty_fields() {
    let action = AgentAction::new("", "", "");
    assert_eq!(action.tool, "");
    assert_eq!(action.tool_input, "");
    assert_eq!(action.log, "");
}

#[test]
fn test_agent_finish_empty_log() {
    let rv = HashMap::new();
    let finish = AgentFinish::new(rv, "");
    assert!(finish.return_values.is_empty());
    assert_eq!(finish.log, "");
}

#[test]
fn test_agent_action_clone() {
    let a1 = AgentAction::new("tool", "input", "log");
    let a2 = a1.clone();
    assert_eq!(a2.tool, "tool");
}

#[test]
fn test_agent_finish_clone() {
    let rv = HashMap::from([("output".into(), "val".into())]);
    let f1 = AgentFinish::new(rv, "log");
    let f2 = f1.clone();
    assert_eq!(f2.log, "log");
}

#[test]
fn test_agent_step_with_action_clone() {
    let action = AgentAction::new("t", "i", "l");
    let step = AgentStep::new(action.clone(), "obs");
    assert_eq!(step.action.tool, "t");
    assert_eq!(step.action.tool_input, "i");
}

#[test]
fn test_agent_output_debug() {
    let action = AgentAction::new("t", "i", "l");
    let output = AgentOutput::Action(action);
    let debug = format!("{:?}", output);
    assert!(debug.contains("Action"));
}

#[test]
fn test_agent_action_message_log_clone() {
    let action = AgentAction::new("t", "i", "l");
    let logs = vec![BaseMessage::new("m", MessageType::AI)];
    let aml = AgentActionMessageLog::new(action, logs);
    let cloned = aml.clone();
    assert_eq!(cloned.action.tool, "t");
}

#[test]
fn test_agents_send_sync() {
    fn assert_send<T: Send>() {}
    fn assert_sync<T: Sync>() {}
    assert_send::<AgentAction>();
    assert_sync::<AgentAction>();
    assert_send::<AgentFinish>();
    assert_sync::<AgentFinish>();
    assert_send::<AgentOutput>();
    assert_sync::<AgentOutput>();
    assert_send::<AgentStep>();
    assert_sync::<AgentStep>();
}

#[test]
fn agent_action_new_from_owned_strings() {
    let action = AgentAction::new(String::from("a"), &String::from("b"), "c");
    assert_eq!(action.tool, "a");
    assert_eq!(action.tool_input, "b");
    assert_eq!(action.log, "c");
}
