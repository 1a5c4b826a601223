use langchain_core::messages::{BaseMessage, MessageType};
use langchain_core::schemas::{ChatGeneration, ChatResult, Generation, GenerationChunk, LLMResult, MessageChunk};
use std::collections::HashMap;

#[test]
fn schemas_test_generation_new() {
    let g = Generation::new("hello");
    assert_eq!(g.text, "hello");
    assert!(g.generation_info.is_none());
}

#[test]
fn test_generation_chunk_new() {
    let chunk = GenerationChunk::new("hello");
    assert_eq!(chunk.text, "hello");
    assert!(chunk.generation_info.is_none());
}

#[test]
fn test_llm_result_new() {
    let g = Generation::new("response");
    let result = LLMResult::new(vec![vec![g]]);
    assert_eq!(result.generations.len(), 1);
    assert!(result.llm_output.is_none());
}

#[test]
fn schemas_test_llm_result_empty() {
    let result = LLMResult::new(vec![]);
    assert!(result.generations.is_empty());
}

#[test]
fn schemas_test_chat_generation_new() {
    let msg = BaseMessage::new("hi", MessageType::AI);
    let cg = ChatGeneration::new(msg);
    assert_eq!(cg.text, "hi");
    assert!(cg.generation_info.is_none());
}

#[test]
fn schemas_test_chat_result_new() {
    let msg = BaseMessage::new("hi", MessageType::AI);
    let cg = ChatGeneration::new(msg);
    let result = ChatResult { generations: vec![cg], llm_output: None };
    assert_eq!(result.generations.len(), 1);
}

#[test]
fn test_message_chunk_new() {
    let chunk = MessageChunk::new("hello", MessageType::Human);
    assert_eq!(chunk.content, "hello");
    assert!(matches!(chunk.message_type, MessageType::Human));
    assert!(chunk.name.is_none());
}

#[test]
fn test_message_chunk_with_name() {
    let chunk = MessageChunk {
        content: "hello".into(),
        message_type: MessageType::AI,
        name: Some("assistant".into()),
        additional_kwargs: HashMap::new(),
    };
    assert_eq!(chunk.name.unwrap(), "assistant");
}

#[test]
fn test_generation_with_info() {
    let mut info = HashMap::new();
    info.insert("finish_reason".to_string(), serde_json::Value::String("stop".into()));
    let g = Generation { text: "ok".into(), generation_info: Some(info) };
    let fin = g.generation_info.as_ref().unwrap().get("finish_reason").unwrap();
    assert_eq!(fin, "stop");
}

#[test]
fn test_schemas_send_sync() {
    fn assert_send<T: Send>() {}
    fn assert_sync<T: Sync>() {}
    assert_send::<Generation>();
    assert_sync::<Generation>();
    assert_send::<GenerationChunk>();
    assert_sync::<GenerationChunk>();
    assert_send::<LLMResult>();
    assert_sync::<LLMResult>();
    assert_send::<ChatGeneration>();
    assert_sync::<ChatGeneration>();
    assert_send::<MessageChunk>();
    assert_sync::<MessageChunk>();
}
