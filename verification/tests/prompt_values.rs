use langchain_core::messages::{BaseMessage, MessageType};
use langchain_core::prompt_values::{ChatPromptValue, PromptValue, StringPromptValue};

#[test]
fn test_string_prompt_value_to_string() {
    let sv = StringPromptValue::new("Hello world");
    assert_eq!(sv.to_string_value(), "Hello world");
}

#[test]
fn test_string_prompt_value_to_messages() {
    let sv = StringPromptValue::new("Hello");
    let msgs = sv.to_messages();
    assert_eq!(msgs.len(), 1);
    assert_eq!(msgs[0].content, "Hello");
    assert!(matches!(msgs[0].message_type, MessageType::Human));
}

#[test]
fn test_chat_prompt_value_to_string() {
    let msgs = vec![
        BaseMessage::new("You are helpful.", MessageType::System),
        BaseMessage::new("Hi", MessageType::Human),
    ];
    let cv = ChatPromptValue::new(msgs);
    let s = cv.to_string_value();
    assert!(s.contains("System: You are helpful."));
    assert!(s.contains("Human: Hi"));
}

#[test]
fn test_chat_prompt_value_to_messages() {
    let msgs = vec![
        BaseMessage::new("Hi", MessageType::Human),
        BaseMessage::new("Hello!", MessageType::AI),
    ];
    let cv = ChatPromptValue::new(msgs.clone());
    let result = cv.to_messages();
    assert_eq!(result.len(), 2);
    assert_eq!(result[0].content, "Hi");
    assert_eq!(result[1].content, "Hello!");
}

#[test]
fn test_prompt_value_from_string() {
    let pv: PromptValue = "Hello".into();
    assert_eq!(pv.to_string(), "Hello");
    let msgs = pv.to_messages();
    assert_eq!(msgs.len(), 1);
}

#[test]
fn test_prompt_value_from_vec_messages() {
    let msgs = vec![BaseMessage::new("Hi", MessageType::Human)];
    let pv: PromptValue = msgs.into();
    let result_msgs = pv.to_messages();
    assert_eq!(result_msgs.len(), 1);
    assert_eq!(result_msgs[0].content, "Hi");
}

#[test]
fn test_prompt_value_display() {
    let pv = PromptValue::String(StringPromptValue::new("test"));
    assert_eq!(pv.to_string(), "test");
}

#[test]
fn test_string_prompt_value_display() {
    let sv = StringPromptValue::new("display test");
    assert_eq!(sv.to_string(), "display test");
}

#[test]
fn test_string_prompt_value_chat_messages() {
    let sv = StringPromptValue::new("chat");
    let msgs = sv.to_chat_messages();
    assert_eq!(msgs.len(), 1);
    assert_eq!(msgs[0].content, "chat");
}

#[test]
fn test_chat_prompt_value_display() {
    let msgs = vec![BaseMessage::new("Hello", MessageType::Human)];
    let cv = ChatPromptValue::new(msgs);
    let s = cv.to_string();
    assert_eq!(s, "Human: Hello");
}

#[test]
fn test_chat_prompt_value_chat_messages() {
    let msgs = vec![BaseMessage::new("Hi", MessageType::AI)];
    let cv = ChatPromptValue::new(msgs);
    let result = cv.to_chat_messages();
    assert_eq!(result.len(), 1);
    assert_eq!(result[0].content, "Hi");
}

#[test]
fn test_prompt_value_from_string_prompt_value() {
    let sv = StringPromptValue::new("inner");
    let pv: PromptValue = sv.into();
    assert_eq!(pv.to_string(), "inner");
}

#[test]
fn test_prompt_value_from_chat_prompt_value() {
    let msgs = vec![BaseMessage::new("msg", MessageType::Human)];
    let cv = ChatPromptValue::new(msgs);
    let pv: PromptValue = cv.into();
    let result = pv.to_messages();
    assert_eq!(result.len(), 1);
}

#[test]
fn test_prompt_value_to_chat_messages() {
    let pv: PromptValue = "query".into();
    let msgs = pv.to_chat_messages();
    assert_eq!(msgs.len(), 1);
    assert_eq!(msgs[0].content, "query");
}

#[test]
fn test_string_prompt_value_empty() {
    let sv = StringPromptValue::new("");
    assert_eq!(sv.to_string_value(), "");
    let msgs = sv.to_messages();
    assert_eq!(msgs.len(), 1);
    assert_eq!(msgs[0].content, "");
}

#[test]
fn test_chat_prompt_value_all_message_types() {
    let types = vec![
        MessageType::Human,
        MessageType::AI,
        MessageType::System,
        MessageType::Tool,
        MessageType::Function,
        MessageType::Generic,
        MessageType::Chat,
    ];
    let msgs: Vec<BaseMessage> = types
        .into_iter()
        .map(|t| BaseMessage::new("content", t))
        .collect();
    let cv = ChatPromptValue::new(msgs);
    let s = cv.to_string_value();
    assert!(s.contains("Human: content"));
    assert!(s.contains("AI: content"));
    assert!(s.contains("System: content"));
    assert!(s.contains("Tool: content"));
}

#[test]
fn test_prompt_value_send_sync() {
    fn assert_send<T: Send>() {}
    fn assert_sync<T: Sync>() {}
    assert_send::<StringPromptValue>();
    assert_sync::<StringPromptValue>();
    assert_send::<ChatPromptValue>();
    assert_sync::<ChatPromptValue>();
    assert_send::<PromptValue>();
    assert_sync::<PromptValue>();
}

#[test]
fn test_string_prompt_value_from_string() {
    let sv = StringPromptValue::new(String::from("owned"));
    assert_eq!(sv.to_string_value(), "owned");
}

#[test]
fn test_string_prompt_value_display_trait() {
    let sv = StringPromptValue::new("display");
    assert_eq!(sv.to_string(), "display");
}

#[test]
fn test_chat_prompt_value_from_empty() {
    let cv = ChatPromptValue::new(vec![]);
    assert!(cv.to_messages().is_empty());
    assert_eq!(cv.to_string_value(), "");
}

#[test]
fn test_prompt_value_string_variant_from_string() {
    let sv = StringPromptValue::new("test");
    let pv: PromptValue = sv.into();
    assert_eq!(pv.to_string(), "test");
}

#[test]
fn test_prompt_value_chat_variant_from_messages() {
    let msgs = vec![BaseMessage::new("hi", MessageType::Human)];
    let pv: PromptValue = msgs.into();
    assert_eq!(pv.to_string(), "Human: hi");
}

#[test]
fn test_prompt_value_from_str_ref() {
    let pv: PromptValue = "str ref".into();
    assert_eq!(pv.to_string(), "str ref");
}

#[test]
fn test_chat_prompt_value_format_single_message() {
    let msgs = vec![
        BaseMessage::new("Hello", MessageType::Human),
    ];
    let cv = ChatPromptValue::new(msgs);
    assert_eq!(cv.to_string(), "Human: Hello");
}

#[test]
fn test_chat_prompt_value_format_multiple_messages() {
    let msgs = vec![
        BaseMessage::new("Hi", MessageType::Human),
        BaseMessage::new("Hello!", MessageType::AI),
    ];
    let cv = ChatPromptValue::new(msgs);
    let s = cv.to_string();
    assert_eq!(s, "Human: Hi\nAI: Hello!");
}

#[test]
fn test_prompt_value_to_messages_string_variant() {
    let pv = PromptValue::String(StringPromptValue::new("text"));
    let msgs = pv.to_messages();
    assert_eq!(msgs.len(), 1);
    assert_eq!(msgs[0].content, "text");
    assert!(matches!(msgs[0].message_type, MessageType::Human));
}
