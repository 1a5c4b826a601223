//! Prompt values: the inputs handed to language models, either a plain
//! string or a list of chat messages.

use crate::messages::{messages_text, render_messages, BaseMessage, MessageType};
use crate::text::IntoText;
use vstd::prelude::*;

verus! {

/// A string prompt value wrapping a single text string.
#[derive(Debug, Clone)]
pub struct StringPromptValue {
    /// The prompt text.
    pub text: String,
}

impl StringPromptValue {
    /// Creates a new `StringPromptValue` from the given text.
    pub fn new<S: IntoText>(text: S) -> (res: Self)
        ensures
            res.text@ == text.text_view(),
    {
        StringPromptValue { text: text.into_text() }
    }

    /// Returns the prompt as a plain string.
    pub fn to_string_value(&self) -> (res: String)
        ensures
            res@ == self.text@,
    {
        self.text.clone()
    }

    /// Returns the prompt rendered as text (the prompt text itself).
    pub fn to_string(&self) -> (res: String)
        ensures
            res@ == self.text@,
    {
        self.text.clone()
    }

    /// Returns the prompt as a single human message.
    pub fn to_messages(&self) -> (res: Vec<BaseMessage>)
        ensures
            res@.len() == 1,
            res@[0].content@ == self.text@,
            res@[0].message_type == MessageType::Human,
    {
        vec![BaseMessage::new(self.text.as_str(), MessageType::Human)]
    }

    /// Returns the prompt as chat messages (same as [`Self::to_messages`]).
    pub fn to_chat_messages(&self) -> (res: Vec<BaseMessage>)
        ensures
            res@.len() == 1,
            res@[0].content@ == self.text@,
            res@[0].message_type == MessageType::Human,
    {
        self.to_messages()
    }
}

/// A chat prompt value built from a list of messages.
#[derive(Debug, Clone)]
pub struct ChatPromptValue {
    /// The list of messages forming the prompt.
    pub messages: Vec<BaseMessage>,
}

impl ChatPromptValue {
    /// Creates a new `ChatPromptValue` from a list of messages.
    pub fn new(messages: Vec<BaseMessage>) -> (res: Self)
        ensures
            res.messages@ == messages@,
    {
        ChatPromptValue { messages }
    }

    /// Returns the messages rendered as `Role: Content`, joined by newlines.
    pub fn to_string_value(&self) -> (res: String)
        ensures
            res@ == messages_text(self.messages@),
    {
        render_messages(&self.messages)
    }

    /// Returns the prompt rendered as text (same as [`Self::to_string_value`]).
    pub fn to_string(&self) -> (res: String)
        ensures
            res@ == messages_text(self.messages@),
    {
        render_messages(&self.messages)
    }

    /// Returns the messages.
    pub fn to_messages(&self) -> (res: Vec<BaseMessage>)
        ensures
            same_messages(res@, self.messages@),
    {
        clone_messages(&self.messages)
    }

    /// Returns the messages (same as [`Self::to_messages`]).
    pub fn to_chat_messages(&self) -> (res: Vec<BaseMessage>)
        ensures
            same_messages(res@, self.messages@),
    {
        self.to_messages()
    }
}

/// Two message lists hold the same contents with the same roles, in order.
pub open spec fn same_messages(a: Seq<BaseMessage>, b: Seq<BaseMessage>) -> bool {
    &&& a.len() == b.len()
    &&& forall|k: int| #![trigger a[k]] 0 <= k < a.len() ==> a[k].content@ == b[k].content@
        && a[k].message_type == b[k].message_type
}

/// A copy of a list of messages, element by element.
pub fn clone_messages(msgs: &Vec<BaseMessage>) -> (res: Vec<BaseMessage>)
    ensures
        same_messages(res@, msgs@),
{
    let mut out: Vec<BaseMessage> = Vec::new();
    let mut i: usize = 0;
    while i < msgs.len()
        invariant
            i <= msgs@.len(),
            out@.len() == i,
            forall|k: int| #![trigger out@[k]] 0 <= k < i ==> out@[k].content@ == msgs@[k].content@
                && out@[k].message_type == msgs@[k].message_type,
        decreases msgs@.len() - i,
    {
        let m = BaseMessage::new(msgs[i].content.as_str(), msgs[i].message_type);
        out.push(m);
        assert(out@[i as int] == m);
        i += 1;
    }
    out
}

/// A prompt value that is either a string or a chat message list.
#[derive(Debug, Clone)]
pub enum PromptValue {
    /// A plain-text prompt value.
    String(StringPromptValue),
    /// A chat-oriented prompt value backed by a message list.
    Chat(ChatPromptValue),
}

impl PromptValue {
    /// The text of the prompt: the inner text, or the rendered messages.
    pub open spec fn spec_text(&self) -> Seq<char> {
        match self {
            PromptValue::String(s) => s.text@,
            PromptValue::Chat(c) => messages_text(c.messages@),
        }
    }

    /// Returns the prompt as a plain string.
    pub fn to_string(&self) -> (res: String)
        ensures
            res@ == self.spec_text(),
    {
        match self {
            PromptValue::String(s) => s.to_string_value(),
            PromptValue::Chat(c) => c.to_string_value(),
        }
    }

    /// Returns the prompt as messages: a single human message for a string
    /// prompt, the messages themselves for a chat prompt.
    pub fn to_messages(&self) -> (res: Vec<BaseMessage>)
        ensures
            match self {
                PromptValue::String(s) => res@.len() == 1 && res@[0].content@ == s.text@
                    && res@[0].message_type == MessageType::Human,
                PromptValue::Chat(c) => same_messages(res@, c.messages@),
            },
    {
        match self {
            PromptValue::String(s) => s.to_messages(),
            PromptValue::Chat(c) => c.to_messages(),
        }
    }

    /// Returns the prompt as chat messages (same as [`Self::to_messages`]).
    pub fn to_chat_messages(&self) -> (res: Vec<BaseMessage>)
        ensures
            match self {
                PromptValue::String(s) => res@.len() == 1 && res@[0].content@ == s.text@
                    && res@[0].message_type == MessageType::Human,
                PromptValue::Chat(c) => same_messages(res@, c.messages@),
            },
    {
        self.to_messages()
    }

    /// A string prompt value holding `text`.
    pub fn from_text<S: IntoText>(text: S) -> (res: Self)
        ensures
            res matches PromptValue::String(s) && s.text@ == text.text_view(),
    {
        PromptValue::String(StringPromptValue::new(text))
    }
}

impl<'a> From<&'a str> for PromptValue {
    fn from(s: &'a str) -> (res: PromptValue) {
        PromptValue::from_text(s)
    }
}

impl<'a> vstd::std_specs::convert::FromSpecImpl<&'a str> for PromptValue {
    open spec fn obeys_from_spec() -> bool {
        false
    }

    open spec fn from_spec(s: &'a str) -> PromptValue {
        vstd::pervasive::arbitrary()
    }
}

impl From<String> for PromptValue {
    fn from(s: String) -> (res: PromptValue) {
        PromptValue::from_text(s)
    }
}

impl vstd::std_specs::convert::FromSpecImpl<String> for PromptValue {
    open spec fn obeys_from_spec() -> bool {
        false
    }

    open spec fn from_spec(s: String) -> PromptValue {
        vstd::pervasive::arbitrary()
    }
}

impl From<StringPromptValue> for PromptValue {
    fn from(sv: StringPromptValue) -> (res: PromptValue) {
        PromptValue::String(sv)
    }
}

impl vstd::std_specs::convert::FromSpecImpl<StringPromptValue> for PromptValue {
    open spec fn obeys_from_spec() -> bool {
        true
    }

    open spec fn from_spec(sv: StringPromptValue) -> PromptValue {
        PromptValue::String(sv)
    }
}

impl From<ChatPromptValue> for PromptValue {
    fn from(cv: ChatPromptValue) -> (res: PromptValue) {
        PromptValue::Chat(cv)
    }
}

impl vstd::std_specs::convert::FromSpecImpl<ChatPromptValue> for PromptValue {
    open spec fn obeys_from_spec() -> bool {
        true
    }

    open spec fn from_spec(cv: ChatPromptValue) -> PromptValue {
        PromptValue::Chat(cv)
    }
}

impl From<Vec<BaseMessage>> for PromptValue {
    fn from(msgs: Vec<BaseMessage>) -> (res: PromptValue) {
        PromptValue::Chat(ChatPromptValue { messages: msgs })
    }
}

impl vstd::std_specs::convert::FromSpecImpl<Vec<BaseMessage>> for PromptValue {
    open spec fn obeys_from_spec() -> bool {
        true
    }

    open spec fn from_spec(msgs: Vec<BaseMessage>) -> PromptValue {
        PromptValue::Chat(ChatPromptValue { messages: msgs })
    }
}

} // verus!
