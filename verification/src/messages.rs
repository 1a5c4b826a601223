//! Chat message types.

use crate::text::{join, join_strings, views};
use vstd::prelude::*;

verus! {

/// The role of a chat message.
#[derive(Debug, Clone, Copy, PartialEq, Eq, Structural)]
pub enum MessageType {
    /// A message from the user.
    Human,
    /// A message from the model.
    AI,
    /// A system instruction.
    System,
    /// The result of a tool call.
    Tool,
    /// The result of a function call.
    Function,
    /// A message with no specific role.
    Generic,
    /// A chat message with a custom role.
    Chat,
}

/// A chat message: its text content and its role.
#[derive(Debug, Clone)]
pub struct BaseMessage {
    /// The text content of the message.
    pub content: String,
    /// The role of the message.
    pub message_type: MessageType,
}

impl BaseMessage {
    /// Creates a message with the given content and role.
    pub fn new(content: &str, message_type: MessageType) -> (res: Self)
        ensures
            res.content@ == content@,
            res.message_type == message_type,
    {
        BaseMessage { content: content.to_owned(), message_type }
    }
}


/// The role label used when messages are rendered as text.
pub open spec fn role_name(t: MessageType) -> Seq<char> {
    match t {
        MessageType::Human => "Human"@,
        MessageType::AI => "AI"@,
        MessageType::System => "System"@,
        MessageType::Tool => "Tool"@,
        MessageType::Function => "Function"@,
        MessageType::Generic => "Generic"@,
        MessageType::Chat => "Chat"@,
    }
}

/// The role label of a message type, e.g. `"Human"`.
pub fn role_label(t: MessageType) -> (res: &'static str)
    ensures
        res@ == role_name(t),
{
    match t {
        MessageType::Human => "Human",
        MessageType::AI => "AI",
        MessageType::System => "System",
        MessageType::Tool => "Tool",
        MessageType::Function => "Function",
        MessageType::Generic => "Generic",
        MessageType::Chat => "Chat",
    }
}

/// A message rendered as `Role: content`.
pub open spec fn message_line(m: BaseMessage) -> Seq<char> {
    role_name(m.message_type) + ": "@ + m.content@
}

/// Messages rendered one per line as `Role: content`.
pub open spec fn messages_text(msgs: Seq<BaseMessage>) -> Seq<char> {
    join(msgs.map_values(|m: BaseMessage| message_line(m)), "\n"@)
}

/// Renders messages one per line as `Role: content`, joined by newlines.
pub fn render_messages(msgs: &Vec<BaseMessage>) -> (res: String)
    ensures
        res@ == messages_text(msgs@),
{
    let mut lines: Vec<String> = Vec::new();
    let mut i: usize = 0;
    while i < msgs.len()
        invariant
            i <= msgs@.len(),
            views(lines@) =~= msgs@.take(i as int).map_values(|m: BaseMessage| message_line(m)),
        decreases msgs@.len() - i,
    {
        let m = &msgs[i];
        let mut line = String::from_str(role_label(m.message_type));
        line.append(": ");
        line.append(m.content.as_str());
        proof {
            assert(views(lines@.push(line)) =~= views(lines@).push(line@));
            assert(msgs@.take(i + 1).map_values(|m: BaseMessage| message_line(m)) =~= msgs@.take(
                i as int,
            ).map_values(|m: BaseMessage| message_line(m)).push(message_line(msgs@[i as int])));
        }
        lines.push(line);
        i += 1;
    }
    assert(msgs@.take(msgs@.len() as int) =~= msgs@);
    join_strings(&lines, "\n")
}

} // verus!
