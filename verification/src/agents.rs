//! Agent action and result schemas.
//!
//! An agent chooses a sequence of actions; each step produces an
//! [`AgentAction`] (tool to invoke and input) and an observation. When the
//! agent reaches a stopping condition it returns an [`AgentFinish`].

use crate::messages::BaseMessage;
use crate::text::IntoText;
use std::collections::HashMap;
use vstd::prelude::*;

verus! {

/// A request by an agent to execute a tool.
#[derive(Debug, Clone)]
pub struct AgentAction {
    /// The name of the tool to execute.
    pub tool: String,
    /// The input to pass to the tool.
    pub tool_input: String,
    /// Additional information to log about the action.
    pub log: String,
}

impl AgentAction {
    /// Creates a new `AgentAction`.
    pub fn new<A: IntoText, B: IntoText, C: IntoText>(tool: A, tool_input: B, log: C) -> (res: Self)
        ensures
            res.tool@ == tool.text_view(),
            res.tool_input@ == tool_input.text_view(),
            res.log@ == log.text_view(),
    {
        AgentAction { tool: tool.into_text(), tool_input: tool_input.into_text(), log: log.into_text() }
    }
}

/// Final return value of an agent when it has reached a stopping condition.
#[derive(Debug, Clone)]
pub struct AgentFinish {
    /// Dictionary of return values from the agent.
    pub return_values: HashMap<String, String>,
    /// Additional information to log about the return value.
    pub log: String,
}

impl AgentFinish {
    /// Creates a new `AgentFinish`.
    pub fn new<C: IntoText>(return_values: HashMap<String, String>, log: C) -> (res: Self)
        ensures
            res.return_values == return_values,
            res.log@ == log.text_view(),
    {
        AgentFinish { return_values, log: log.into_text() }
    }
}

/// The output of a single agent step: an action to execute or a final result.
#[derive(Debug, Clone)]
pub enum AgentOutput {
    /// The agent decided to invoke a tool.
    Action(AgentAction),
    /// The agent reached a stopping condition and returned a final value.
    Finish(AgentFinish),
}

/// The result of executing an [`AgentAction`]: the action and the tool's
/// observation.
#[derive(Debug, Clone)]
pub struct AgentStep {
    /// The action that was executed.
    pub action: AgentAction,
    /// The observation returned by the tool.
    pub observation: String,
}

impl AgentStep {
    /// Creates a new `AgentStep`.
    pub fn new<C: IntoText>(action: AgentAction, observation: C) -> (res: Self)
        ensures
            res.action == action,
            res.observation@ == observation.text_view(),
    {
        AgentStep { action, observation: observation.into_text() }
    }
}

/// An [`AgentAction`] together with the chat messages the model produced
/// before the action was parsed.
#[derive(Debug, Clone)]
pub struct AgentActionMessageLog {
    /// The action to execute.
    pub action: AgentAction,
    /// The chat messages produced by the model.
    pub message_logs: Vec<BaseMessage>,
}

impl AgentActionMessageLog {
    /// Creates a new `AgentActionMessageLog`.
    pub fn new(action: AgentAction, message_logs: Vec<BaseMessage>) -> (res: Self)
        ensures
            res.action == action,
            res.message_logs@ == message_logs@,
    {
        AgentActionMessageLog { action, message_logs }
    }
}

} // verus!
