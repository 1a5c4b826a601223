use langchain_core::errors::ChainError;
use langchain_core::language_models::{
    DeterministicFakeListChatModel, FakeListChatModel, FakeListLLM, ModelProfile, PromptValue,
};
use langchain_core::language_models::{
    char_chunks, first_batch, first_chat_generation, first_message, get_num_tokens, whole_message_chunk,
    ChatGenerationChunk,
};
use langchain_core::schemas::{ChatGeneration, ChatResult, MessageChunk};
use std::collections::HashMap;
use langchain_core::messages::{BaseMessage, MessageType};

#[test]
fn prompt_value_text_renders_itself() {
    let pv = PromptValue::from("hello");
    assert_eq!(pv.to_string(), "hello");
    let msgs = pv.to_messages();
    assert_eq!(msgs.len(), 1);
    assert_eq!(msgs[0].content, "hello");
    assert_eq!(msgs[0].message_type, MessageType::Human);
}

#[test]
fn prompt_value_messages_render_roles() {
    let pv = PromptValue::from(vec![
        BaseMessage::new("Be brief.", MessageType::System),
        BaseMessage::new("Hi", MessageType::Human),
    ]);
    assert_eq!(pv.to_string(), "System: Be brief.\nHuman: Hi");
    assert_eq!(pv.to_messages().len(), 2);
}

#[test]
fn model_profile_starts_empty() {
    let p = ModelProfile::new();
    assert!(p.name.is_none());
    assert_eq!(p.context_window(), None);
    let mut q = ModelProfile::default();
    q.max_input_tokens = Some(128000);
    assert_eq!(q.context_window(), Some(128000));
}

#[test]
fn fake_list_chat_model_cycles() {
    let m = FakeListChatModel::new(vec!["a".to_string(), "b".to_string()]).with_sleep_ms(5);
    assert_eq!(m.sleep_ms, Some(5));
    assert_eq!(m.next_response().unwrap(), "a");
    assert_eq!(m.next_response().unwrap(), "b");
    assert_eq!(m.next_response().unwrap(), "a");
}

#[test]
fn fake_list_models_without_responses_fail() {
    let m = FakeListChatModel::new(vec![]);
    match m.next_response() {
        Err(ChainError::LLMError(msg)) => assert_eq!(msg, "FakeListChatModel has no responses"),
        _ => panic!("expected an error"),
    }
    let l = FakeListLLM::new(vec![]);
    match l.next_response() {
        Err(ChainError::LLMError(msg)) => assert_eq!(msg, "FakeListLLM has no responses"),
        _ => panic!("expected an error"),
    }
}

#[test]
fn fake_list_llm_cycles() {
    let m = FakeListLLM::new(vec!["x".to_string()]);
    assert_eq!(m.next_response().unwrap(), "x");
    assert_eq!(m.next_response().unwrap(), "x");
}

#[test]
fn deterministic_model_picks_by_index() {
    let m = DeterministicFakeListChatModel::new(vec!["p".to_string(), "q".to_string(), "r".to_string()]);
    assert_eq!(m.response_at(0).unwrap(), "p");
    assert_eq!(m.response_at(4).unwrap(), "q");
    let e = DeterministicFakeListChatModel::new(vec![]);
    match e.response_at(0) {
        Err(ChainError::LLMError(msg)) => assert_eq!(msg, "DeterministicFakeListChatModel has no responses"),
        _ => panic!("expected an error"),
    }
}

#[test]
fn fake_chat_model_generates_in_turn() {
    let model = FakeListChatModel::new(vec!["response1".to_string(), "response2".to_string()]);
    let first = model.generate_now().unwrap();
    assert_eq!(first.generations.len(), 1);
    assert_eq!(first.generations[0].message.content, "response1");
    assert!(matches!(first.generations[0].message.message_type, MessageType::AI));
    assert_eq!(model.generate_now().unwrap().generations[0].message.content, "response2");
    assert_eq!(model.generate_now().unwrap().generations[0].message.content, "response1");
}

#[test]
fn fake_llm_answers_each_prompt() {
    let model = FakeListLLM::new(vec!["answer1".to_string(), "answer2".to_string()]);
    let prompts = vec!["p1".to_string(), "p2".to_string(), "p3".to_string()];
    let result = model.generate_now(&prompts).unwrap();
    assert_eq!(result.generations.len(), 3);
    assert_eq!(result.generations[0][0].text, "answer1");
    assert_eq!(result.generations[1][0].text, "answer2");
    assert_eq!(result.generations[2][0].text, "answer1");
    let empty = FakeListLLM::new(vec![]);
    assert!(empty.generate_now(&Vec::new()).unwrap().generations.is_empty());
    match empty.generate_now(&prompts) {
        Err(ChainError::LLMError(m)) => assert_eq!(m, "FakeListLLM has no responses"),
        _ => panic!("expected an LLM error"),
    }
}

#[test]
fn deterministic_model_generates_first_response() {
    let model = DeterministicFakeListChatModel::new(vec!["first".to_string(), "second".to_string()]);
    let r = model.generate_now().unwrap();
    assert_eq!(r.generations[0].message.content, "first");
    assert_eq!(model.generate_now().unwrap().generations[0].message.content, "first");
}

#[test]
fn first_message_of_result_or_error() {
    let r = ChatResult {
        generations: vec![ChatGeneration::new(BaseMessage::new("hi", MessageType::AI))],
        llm_output: None,
    };
    assert_eq!(first_message(r.clone()).unwrap().content, "hi");
    assert_eq!(first_chat_generation(r).unwrap().text, "hi");
    let empty = ChatResult { generations: vec![], llm_output: None };
    match first_message(empty) {
        Err(ChainError::LLMError(m)) => assert_eq!(m, "No generations returned"),
        _ => panic!("expected an LLM error"),
    }
}

#[test]
fn fake_stream_splits_into_characters() {
    let chunks = char_chunks("héy");
    assert_eq!(chunks.len(), 3);
    assert_eq!(chunks[0].message.content, "h");
    assert_eq!(chunks[1].message.content, "é");
    assert_eq!(chunks[2].message.content, "y");
    assert!(chunks.iter().all(|c| matches!(c.message.message_type, MessageType::AI)));
    assert!(char_chunks("").is_empty());
}

#[test]
fn whole_message_is_one_chunk() {
    let c = whole_message_chunk(&BaseMessage::new("all of it", MessageType::Human));
    assert_eq!(c.message.content, "all of it");
    assert!(matches!(c.message.message_type, MessageType::Human));
}

#[test]
fn chunks_merge_content_and_fields() {
    let mut a = ChatGenerationChunk::new(MessageChunk::new("Hel", MessageType::AI));
    let mut kwargs = HashMap::new();
    kwargs.insert("k".to_string(), serde_json::Value::from(1));
    let mut m = MessageChunk::new("lo", MessageType::AI);
    m.additional_kwargs = kwargs;
    let mut info = HashMap::new();
    info.insert("finish".to_string(), serde_json::Value::from("stop"));
    let b = ChatGenerationChunk::new(m).with_generation_info(info);
    a.merge(b);
    assert_eq!(a.message.content, "Hello");
    assert_eq!(a.message.additional_kwargs.get("k"), Some(&serde_json::Value::from(1)));
    assert_eq!(a.generation_info.unwrap().get("finish"), Some(&serde_json::Value::from("stop")));
}

#[test]
fn token_count_is_word_count() {
    assert_eq!(get_num_tokens("hello  world\tfoo\n"), 3);
    assert_eq!(get_num_tokens("   "), 0);
    assert_eq!(get_num_tokens(""), 0);
    assert_eq!(get_num_tokens("one"), 1);
}

#[test]
fn simple_chat_takes_first_conversation() {
    let batch = vec![vec![BaseMessage::new("a", MessageType::Human)], vec![]];
    assert_eq!(first_batch(batch).unwrap()[0].content, "a");
    match first_batch(vec![]) {
        Err(ChainError::LLMError(m)) => assert_eq!(m, "No messages provided"),
        _ => panic!("expected an LLM error"),
    }
}
