use langchain_core::messages::{BaseMessage, MessageType};
use langchain_core::outputs::{
    merge_chat_generation_chunks, ChatGeneration, ChatGenerationChunk, ChatResult, Generation, GenerationChunk,
    LLMResult, RunInfo,
};
use serde_json::Value;
use uuid::Uuid;

fn obj(pairs: &[(&str, Value)]) -> Value {
    let mut m = serde_json::Map::new();
    for (k, v) in pairs {
        m.insert(k.to_string(), v.clone());
    }
    Value::Object(m)
}

fn num(n: i64) -> Value {
    Value::from(n)
}

fn s(x: &str) -> Value {
    Value::String(x.to_string())
}

#[test]
fn outputs_test_generation_new() {
    let g = Generation::new("hello");
    assert_eq!(g.text, "hello");
    assert!(g.generation_info.is_none());
}

#[test]
fn outputs_test_chat_generation_new() {
    let msg = BaseMessage::new("hi", MessageType::AI);
    let cg = ChatGeneration::new(msg);
    assert_eq!(cg.text, "hi");
    assert_eq!(cg.message.content, "hi");
}

#[test]
fn test_run_info_default() {
    let ri = RunInfo::default();
    assert_ne!(ri.run_id, Uuid::nil());
}

#[test]
fn test_llm_result_flatten() {
    let g1 = Generation::new("a");
    let g2 = Generation::new("b");
    let result = LLMResult::new(vec![vec![g1], vec![g2]])
        .with_llm_output(obj(&[("token_usage", obj(&[("total", num(10))]))]));
    let flat = result.flatten();
    assert_eq!(flat.len(), 2);
    assert!(flat[0].llm_output.is_some());
}

#[test]
fn test_generation_chunk_add() {
    let a = GenerationChunk::new("hello");
    let b = GenerationChunk::new(" world");
    let combined = a.add(b);
    assert_eq!(combined.text, "hello world");
}

#[test]
fn test_generation_chunk_merge_with_info() {
    let a = GenerationChunk::new("hello").with_generation_info(obj(&[("finish_reason", Value::Null)]));
    let b = GenerationChunk::new(" world").with_generation_info(obj(&[("finish_reason", s("stop"))]));
    let combined = a.add(b);
    assert_eq!(combined.text, "hello world");
    let info = combined.generation_info.unwrap();
    assert_eq!(info["finish_reason"], "stop");
}

#[test]
fn test_chat_generation_chunk_add() {
    let a = ChatGenerationChunk::from_text("hello", MessageType::AI);
    let b = ChatGenerationChunk::from_text(" world", MessageType::AI);
    let combined = a.add(b);
    assert_eq!(combined.text, "hello world");
    assert_eq!(combined.message.content, "hello world");
}

#[test]
fn test_merge_chat_generation_chunks_empty() {
    assert!(merge_chat_generation_chunks(&[]).is_none());
}

#[test]
fn test_merge_chat_generation_chunks_single() {
    let chunk = ChatGenerationChunk::from_text("hello", MessageType::AI);
    let merged = merge_chat_generation_chunks(&[chunk.clone()]);
    assert!(merged.is_some());
    assert_eq!(merged.unwrap().text, "hello");
}

#[test]
fn test_generation_with_generation_info() {
    let g = Generation::new("test").with_generation_info(obj(&[("finish_reason", s("stop"))]));
    assert_eq!(g.text, "test");
    let info = g.generation_info.unwrap();
    assert_eq!(info["finish_reason"], "stop");
}

#[test]
fn test_chat_generation_with_generation_info() {
    let msg = BaseMessage::new("hi", MessageType::AI);
    let cg = ChatGeneration::new(msg).with_generation_info(obj(&[("finish_reason", s("stop"))]));
    assert_eq!(cg.text, "hi");
    let info = cg.generation_info.unwrap();
    assert_eq!(info["finish_reason"], "stop");
}

#[test]
fn outputs_test_llm_result_empty() {
    let result = LLMResult::new(vec![]);
    assert!(result.generations.is_empty());
    assert!(result.llm_output.is_none());
    assert!(result.run.is_none());
}

#[test]
fn test_llm_result_with_run() {
    let g = Generation::new("a");
    let run_info = RunInfo::new();
    let result = LLMResult::new(vec![vec![g]]).with_run(vec![run_info]);
    assert!(result.run.is_some());
}

#[test]
fn test_generation_chunk_no_info_merge() {
    let a = GenerationChunk::new("hello");
    let b = GenerationChunk::new(" world");
    let mut merged = a.clone();
    merged.merge(&b);
    assert_eq!(merged.text, "hello world");
    assert!(merged.generation_info.is_none());
}

#[test]
fn test_generation_chunk_info_merge_asymmetric() {
    let a = GenerationChunk::new("hello").with_generation_info(obj(&[("a", num(1))]));
    let b = GenerationChunk::new(" world");
    let combined = a.add(b);
    assert_eq!(combined.text, "hello world");
    assert!(combined.generation_info.is_some());
}

#[test]
fn test_chat_generation_chunk_with_generation_info() {
    let msg = BaseMessage::new("hello", MessageType::AI);
    let chunk = ChatGenerationChunk::new(msg).with_generation_info(obj(&[("token_id", num(42))]));
    assert_eq!(chunk.text, "hello");
    let info = chunk.generation_info.unwrap();
    assert_eq!(info["token_id"], 42);
}

#[test]
fn outputs_test_chat_generation_chunk_merge_with_info() {
    let a = ChatGenerationChunk::from_text("hello", MessageType::AI).with_generation_info(obj(&[("a", num(1))]));
    let b = ChatGenerationChunk::from_text(" world", MessageType::AI).with_generation_info(obj(&[("b", num(2))]));
    let combined = a.add(b);
    assert_eq!(combined.text, "hello world");
    let info = combined.generation_info.unwrap();
    assert_eq!(info["a"], 1);
    assert_eq!(info["b"], 2);
}

#[test]
fn outputs_test_chat_result_new() {
    let msg = BaseMessage::new("hi", MessageType::AI);
    let cg = ChatGeneration::new(msg);
    let result = ChatResult::new(vec![vec![cg]]);
    assert_eq!(result.generations.len(), 1);
    assert_eq!(result.generations[0][0].text, "hi");
}

#[test]
fn test_chat_result_with_llm_output() {
    let msg = BaseMessage::new("hi", MessageType::AI);
    let cg = ChatGeneration::new(msg);
    let result = ChatResult::new(vec![vec![cg]]).with_llm_output(obj(&[("model", s("gpt"))]));
    let output = result.llm_output.unwrap();
    assert_eq!(output["model"], "gpt");
}

#[test]
fn test_run_info_with_run_id() {
    let uuid = Uuid::new_v4();
    let ri = RunInfo::with_run_id(uuid);
    assert_eq!(ri.run_id, uuid);
}

#[test]
fn test_chat_generation_chunk_from_text() {
    let chunk = ChatGenerationChunk::from_text("hello", MessageType::Human);
    assert_eq!(chunk.text, "hello");
    assert_eq!(chunk.message.content, "hello");
    assert!(matches!(chunk.message.message_type, MessageType::Human));
}

#[test]
fn test_outputs_send_sync() {
    fn assert_send<T: Send>() {}
    fn assert_sync<T: Sync>() {}
    assert_send::<Generation>();
    assert_sync::<Generation>();
    assert_send::<ChatGeneration>();
    assert_sync::<ChatGeneration>();
    assert_send::<LLMResult>();
    assert_sync::<LLMResult>();
    assert_send::<ChatResult>();
    assert_sync::<ChatResult>();
    assert_send::<GenerationChunk>();
    assert_sync::<GenerationChunk>();
    assert_send::<ChatGenerationChunk>();
    assert_sync::<ChatGenerationChunk>();
}

#[test]
fn test_llm_result_flatten_single() {
    let g = Generation::new("only");
    let result = LLMResult::new(vec![vec![g]]);
    let flat = result.flatten();
    assert_eq!(flat.len(), 1);
}

#[test]
fn test_llm_result_flatten_shared_llm_output() {
    let g1 = Generation::new("a");
    let g2 = Generation::new("b");
    let g3 = Generation::new("c");
    let result = LLMResult::new(vec![vec![g1], vec![g2], vec![g3]]).with_llm_output(obj(&[("model", s("gpt-4"))]));
    let flat = result.flatten();
    assert_eq!(flat.len(), 3);
    assert!(flat[0].llm_output.is_some());
    assert!(flat[1].llm_output.is_some());
    assert!(flat[2].llm_output.is_some());
}

#[test]
fn test_chat_generation_chunk_merge_empty_info() {
    let a = ChatGenerationChunk::from_text("hello", MessageType::AI);
    let b = ChatGenerationChunk::from_text(" world", MessageType::AI);
    let mut a_clone = a.clone();
    a_clone.merge(&b);
    assert_eq!(a_clone.text, "hello world");
    assert!(a_clone.generation_info.is_none());
}

#[test]
fn test_chat_generation_chunk_merge_info_from_left() {
    let a = ChatGenerationChunk::from_text("hello", MessageType::AI).with_generation_info(obj(&[("a", num(1))]));
    let b = ChatGenerationChunk::from_text(" world", MessageType::AI);
    let c = a.add(b);
    assert_eq!(c.text, "hello world");
    assert_eq!(c.generation_info.unwrap()["a"], 1);
}

#[test]
fn test_chat_generation_chunk_from_text_types() {
    for mt in &[MessageType::Human, MessageType::AI, MessageType::System] {
        let chunk = ChatGenerationChunk::from_text("text", *mt);
        assert_eq!(chunk.text, "text");
        assert_eq!(chunk.message.content, "text");
    }
}

#[test]
fn test_merge_chat_generation_chunks_multiple() {
    let chunks: Vec<ChatGenerationChunk> = vec!["a", " ", "b", " ", "c"]
        .into_iter()
        .map(|s| ChatGenerationChunk::from_text(s, MessageType::AI))
        .collect();
    let merged = merge_chat_generation_chunks(&chunks);
    assert!(merged.is_some());
    assert_eq!(merged.unwrap().text, "a b c");
}

#[test]
fn test_chat_generation_chunk_add_overload() {
    let a = ChatGenerationChunk::from_text("hello", MessageType::AI);
    let b = ChatGenerationChunk::from_text(" world", MessageType::AI);
    let c = a.add(b);
    assert_eq!(c.text, "hello world");
    assert_eq!(c.message.content, "hello world");
}

#[test]
fn flatten_replaces_later_metadata_with_empty_token_usage() {
    let result = LLMResult::new(vec![vec![Generation::new("a")], vec![Generation::new("b"), Generation::new("c")]])
        .with_llm_output(obj(&[("token_usage", obj(&[("total", num(10))]))]));
    let flat = result.flatten();
    assert_eq!(flat[0].llm_output.as_ref().unwrap()["token_usage"]["total"], 10);
    assert_eq!(flat[1].llm_output.as_ref().unwrap(), &obj(&[("token_usage", obj(&[]))]));
    assert_eq!(flat[1].generations.len(), 1);
    assert_eq!(flat[1].generations[0].len(), 2);
    assert_eq!(flat[1].generations[0][1].text, "c");
    let plain = LLMResult::new(vec![vec![Generation::new("a")], vec![Generation::new("b")]]).flatten();
    assert!(plain[1].llm_output.is_none());
}

#[test]
fn merged_chunks_keep_first_role_and_overwrite_keys() {
    let a = ChatGenerationChunk::from_text("x", MessageType::Human).with_generation_info(obj(&[("k", num(1))]));
    let b = ChatGenerationChunk::from_text("y", MessageType::AI).with_generation_info(obj(&[("k", num(2))]));
    let merged = merge_chat_generation_chunks(&[a, b]).unwrap();
    assert_eq!(merged.text, "xy");
    assert!(matches!(merged.message.message_type, MessageType::Human));
    assert_eq!(merged.generation_info.unwrap()["k"], 2);
}

#[test]
fn flatten_later_results_carry_empty_token_usage() {
    let result = LLMResult::new(vec![vec![Generation::new("a")], vec![Generation::new("b")]])
        .with_llm_output(obj(&[("token_usage", obj(&[("total", num(10))]))]));
    let flat = result.flatten();
    assert_eq!(flat[0].llm_output, Some(obj(&[("token_usage", obj(&[("total", num(10))]))])));
    assert_eq!(flat[1].llm_output, Some(obj(&[("token_usage", obj(&[]))])));
}

#[test]
fn chunk_merge_overwrites_and_keeps_members() {
    let a = GenerationChunk::new("x").with_generation_info(obj(&[("a", num(1)), ("b", num(2))]));
    let b = GenerationChunk::new("y").with_generation_info(obj(&[("b", num(3)), ("c", num(4))]));
    let merged = a.add(b);
    assert_eq!(merged.generation_info, Some(obj(&[("a", num(1)), ("b", num(3)), ("c", num(4))])));
}

#[test]
fn chunk_merge_keeps_non_object_info() {
    let a = GenerationChunk::new("x").with_generation_info(s("plain"));
    let b = GenerationChunk::new("y").with_generation_info(obj(&[("c", num(4))]));
    assert_eq!(a.add(b).generation_info, Some(s("plain")));
}
