use langchain_core::chat_history::InMemoryChatMessageHistory;
use langchain_core::chat_loaders::{csv_sessions, CsvChatLoader};
use langchain_core::compressors::{
    compression_messages, default_extractor_prompt, default_filter_prompt, extracted_content,
    first_reply_text, reply_says_relevant,
};
use langchain_core::cross_encoders::FakeCrossEncoder;
use langchain_core::document_transformers::{GoogleVertexAIVisionReorder, LongContextReorder, NucliaDBTransformer};
use langchain_core::embeddings::hash_str;
use langchain_core::errors::ChainError;
use langchain_core::example_selectors::length_based_count;
use langchain_core::indexing::IndexingResult;
use langchain_core::messages::{BaseMessage, MessageType};
use langchain_core::rate_limiters::{admit_request, admit_tokens, InMemoryRateLimiter, TokenRateLimiter};
use langchain_core::runnables::{to_safe_mermaid_id, RunnableHistory, RunnablePick};
use langchain_core::tracers::{RunStatus, RunType};
use langchain_core::caches::cache_key;
use langchain_core::caches::{InMemoryCache, RedisCache};
use langchain_core::embeddings::{DeterministicFakeEmbedding, FakeEmbeddings};

#[test]
fn test_hash_str_consistency() {
    let h1 = hash_str("hello");
    let h2 = hash_str("hello");
    assert_eq!(h1, h2);
}

#[test]
fn test_hash_str_different() {
    let h1 = hash_str("hello");
    let h2 = hash_str("world");
    assert_ne!(h1, h2);
}

#[test]
fn test_hash_str_empty() {
    let h = hash_str("");
    assert_eq!(h, 5381);
}

#[test]
fn hash_str_known_value() {
    assert_eq!(hash_str("a"), 5381 * 33 + 97);
}

#[test]
fn test_fake_cross_encoder_debug_clone() {
    let encoder = FakeCrossEncoder::new();
    let _debug = format!("{:?}", encoder);
    let _cloned = encoder.clone();
}

#[test]
fn test_in_memory_rate_limiter_debug() {
    let limiter = InMemoryRateLimiter::new(10);
    let debug_str = format!("{:?}", limiter);
    assert!(debug_str.contains("InMemoryRateLimiter"));
}

#[test]
fn test_token_rate_limiter_debug() {
    let limiter = TokenRateLimiter::new(100);
    let debug_str = format!("{:?}", limiter);
    assert!(debug_str.contains("TokenRateLimiter"));
}

#[test]
fn rate_limit_decisions() {
    assert!(admit_request(1, 2).is_ok());
    match admit_request(2, 2) {
        Err(ChainError::RateLimitError(m)) => assert_eq!(m, "Exceeded 2 requests per minute"),
        _ => panic!("expected a refusal"),
    }
    assert!(admit_tokens(90, 10, 100).is_ok());
    match admit_tokens(95, 10, 100) {
        Err(ChainError::RateLimitError(m)) => assert_eq!(m, "Exceeded 100 tokens per minute"),
        _ => panic!("expected a refusal"),
    }
}

#[test]
fn in_memory_rate_limiter_counts_within_window() {
    let limiter = InMemoryRateLimiter::new(2);
    assert!(limiter.try_acquire().is_ok());
    assert!(limiter.try_acquire().is_ok());
    assert!(limiter.try_acquire().is_err());
    limiter.reset_now();
    assert!(limiter.try_acquire().is_ok());
    let tokens = TokenRateLimiter::new(5);
    assert!(tokens.add_tokens(5).is_ok());
    assert!(tokens.add_tokens(1).is_err());
}

#[test]
fn test_to_safe_mermaid_id() {
    let safe = to_safe_mermaid_id("hello-world_123");
    assert_eq!(safe, "hello-world_123");
    let safe = to_safe_mermaid_id("foo.bar");
    assert_ne!(safe, "foo.bar");
    assert!(safe.contains("foo"));
}

#[test]
fn mermaid_id_escapes_with_hex() {
    assert_eq!(to_safe_mermaid_id("a b"), "a_20b");
    assert_eq!(to_safe_mermaid_id("\u{e9}"), "_e9");
}

#[test]
fn run_type_display() {
    assert_eq!(RunType::Llm.to_string(), "llm");
    assert_eq!(RunType::ChatModel.to_string(), "chat_model");
    assert_eq!(RunType::Chain.to_string(), "chain");
    assert_eq!(RunType::Tool.to_string(), "tool");
    assert_eq!(RunType::Retriever.to_string(), "retriever");
    assert_eq!(RunType::Agent.to_string(), "agent");
    assert_eq!(RunType::Memory.to_string(), "memory");
    assert_eq!(RunType::Callback.to_string(), "callback");
    assert_eq!(RunType::Prompt.to_string(), "prompt");
    assert_eq!(RunType::Other.to_string(), "other");
}

#[test]
fn run_status_display() {
    assert_eq!(RunStatus::NotStarted.to_string(), "not_started");
    assert_eq!(RunStatus::Running.to_string(), "running");
    assert_eq!(RunStatus::Succeeded.to_string(), "succeeded");
    assert_eq!(RunStatus::Failed.to_string(), "failed");
    assert_eq!(RunStatus::Cancelled.to_string(), "cancelled");
}

#[test]
fn run_type_capitalized() {
    assert_eq!(RunType::ChatModel.capitalized(), "Chat_model");
    assert_eq!(RunType::Llm.capitalized(), "Llm");
}

#[test]
fn long_context_reorder_alternates_ends() {
    let r = LongContextReorder::new();
    assert_eq!(r.reorder_sorted(vec!["a", "b", "c", "d"]), vec!["a", "d", "b", "c"]);
    assert_eq!(r.reorder_sorted(vec!["a", "b", "c", "d", "e"]), vec!["a", "e", "b", "d", "c"]);
    assert_eq!(r.reorder_sorted(Vec::<&str>::new()), Vec::<&str>::new());
    let g = GoogleVertexAIVisionReorder::new();
    assert_eq!(g.reorder_sorted(vec![1, 2, 3]), vec![1, 3, 2]);
}

#[test]
fn nuclia_metadata_entries() {
    let t = NucliaDBTransformer::new().with_kbid("kb").with_path("/p");
    let e = t.added_metadata("hello");
    let keys: Vec<&str> = e.iter().map(|(k, _)| k.as_str()).collect();
    assert_eq!(keys, vec!["text", "format", "origin", "kbid", "path"]);
    assert_eq!(e[0].1, "hello");
    assert_eq!(e[1].1, "text");
    assert_eq!(e[3].1, "kb");
    let plain = NucliaDBTransformer::new().added_metadata("x");
    assert_eq!(plain.len(), 3);
}

#[test]
fn compression_decisions() {
    let msgs = compression_messages(&default_extractor_prompt(), "why?", "because").unwrap();
    assert_eq!(msgs.len(), 2);
    assert_eq!(msgs[0].message_type, MessageType::System);
    assert!(msgs[1].content.contains("Given the question: why?"));
    assert!(msgs[1].content.ends_with("because"));
    let f = compression_messages(&default_filter_prompt(), "q", "d").unwrap();
    assert!(f[1].content.contains("Document: d"));
    assert_eq!(extracted_content("  \n"), None);
    assert_eq!(extracted_content(" kept "), Some(" kept ".to_string()));
    assert!(reply_says_relevant("  yes, it is "));
    assert!(!reply_says_relevant("No"));
    assert_eq!(first_reply_text(&vec![vec!["a".to_string(), "b".to_string()], vec!["c".to_string()]]), "b");
    assert_eq!(first_reply_text(&vec![]), "");
}

#[test]
fn csv_sessions_read_columns() {
    let text = "role,content\nHuman,hello\nassistant,hi there\nweird,x\n";
    let sessions = csv_sessions(text, "content", "role").unwrap();
    assert_eq!(sessions.len(), 3);
    assert_eq!(sessions[0][0].content, "hello");
    assert_eq!(sessions[0][0].message_type, MessageType::Human);
    assert_eq!(sessions[1][0].message_type, MessageType::AI);
    assert_eq!(sessions[2][0].message_type, MessageType::Generic);
    let loader = CsvChatLoader::new("file.csv", "content", "role");
    assert_eq!(loader.load_text(text).unwrap().len(), 3);
}

#[test]
fn csv_sessions_missing_column() {
    match csv_sessions("a,b\n1,2\n", "content", "b") {
        Err(ChainError::ValidationError(m)) => assert_eq!(m, "Column 'content' not found in CSV headers"),
        _ => panic!("expected a validation error"),
    }
}

#[test]
fn length_based_selection_stops_at_first_overflow() {
    assert_eq!(length_based_count(&vec![3, 4, 5], 10, 2), 2);
    assert_eq!(length_based_count(&vec![3, 4, 5], 12, 0), 3);
    assert_eq!(length_based_count(&vec![3, 1], 2, 5), 0);
}

#[test]
fn history_and_pick_settings() {
    let h = RunnableHistory::new(|| 1).with_key("chat");
    assert_eq!(h.history_key, "chat");
    let p = RunnablePick::new(vec!["a".to_string()]);
    assert_eq!(p.keys, vec!["a".to_string()]);
    let r = IndexingResult::all_added(4);
    assert_eq!(r.num_added, 4);
    assert_eq!(r.num_skipped, 0);
}

#[test]
fn in_memory_history_shares_messages() {
    let h = InMemoryChatMessageHistory::new();
    assert!(h.is_empty());
    let h2 = h.clone();
    h.add_message_now(BaseMessage::new("hi", MessageType::Human));
    assert_eq!(h2.len(), 1);
    assert_eq!(h2.messages_now()[0].content, "hi");
    h2.clear_now();
    assert!(h.is_empty());
}

#[test]
fn cache_key_is_prefixed_hex_digest() {
    let k = cache_key("hello", "gpt4");
    assert!(k.starts_with("langchain:cache:"));
    assert_eq!(k.len(), "langchain:cache:".len() + 64);
    assert!(k["langchain:cache:".len()..].chars().all(|c| c.is_ascii_digit() || ('a'..='f').contains(&c)));
    assert_ne!(cache_key("hello", "gpt4"), cache_key("hell", "ogpt4x"));
    assert_eq!(cache_key("", ""), "langchain:cache:e3b0c44298fc1c149afbf4c8996fb92427ae41e4649b934ca495991b7852b855");
}

#[test]
fn caches_store_and_clear() {
    let c = InMemoryCache::new();
    assert_eq!(c.lookup_now("p", "m"), None);
    c.update_now("p", "m", "v");
    assert_eq!(c.lookup_now("p", "m"), Some("v".to_string()));
    c.clear_now();
    assert_eq!(c.lookup_now("p", "m"), None);
    let r = RedisCache::new("redis://localhost").with_ttl(5).with_prefix("x");
    assert_eq!(r.ttl, Some(5));
    assert_eq!(r.prefix, "x");
    r.update_now("p", "m", "v").unwrap();
    assert_eq!(r.lookup_now("p", "m").unwrap(), Some("v".to_string()));
    r.clear_now().unwrap();
    assert_eq!(r.lookup_now("p", "m").unwrap(), None);
}

#[test]
fn fake_embedding_units() {
    let d = DeterministicFakeEmbedding::new(3);
    assert_eq!(d.embedding_units("ab"), vec![195, 196, 197]);
    let f = FakeEmbeddings::new(4);
    let u = f.embedding_units("hello");
    assert_eq!(u.len(), 4);
    assert!(u.iter().all(|x| *x < 1000));
    let h = hash_str("hello");
    assert_eq!(u[1], hash_str(&format!("{}-{}", h, 1)) % 1000);
}

#[test]
fn runnable_parallel_is_not_implemented() {
    let p: langchain_core::lcel::RunnableParallel<i32, String> = langchain_core::lcel::RunnableParallel::new();
    match p.invoke(3) {
        Err(langchain_core::errors::ChainError::LLMError(m)) => assert_eq!(m, "Not implemented"),
        _ => panic!("expected the not-implemented error"),
    }
}
