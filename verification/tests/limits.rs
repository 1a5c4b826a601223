use langchain_core::errors::ChainError;
use langchain_core::rate_limiters::{InMemoryRateLimiter, TokenRateLimiter};
use langchain_core::text_splitters::TokenTextSplitter;
use langchain_core::tokenization::{Cl100KEncoder, TokenEncoder};

#[test]
fn zero_request_limit_refuses_with_message() {
    let limiter = InMemoryRateLimiter::new(0);
    match limiter.try_acquire() {
        Err(ChainError::RateLimitError(m)) => assert_eq!(m, "Exceeded 0 requests per minute"),
        _ => panic!("expected a rate-limit error"),
    }
}

#[test]
fn oversized_token_batch_refused_with_message() {
    let limiter = TokenRateLimiter::new(5);
    match limiter.add_tokens(6) {
        Err(ChainError::RateLimitError(m)) => assert_eq!(m, "Exceeded 5 tokens per minute"),
        _ => panic!("expected a rate-limit error"),
    }
}

#[test]
fn encoder_token_count_is_encoding_length() {
    let e = Cl100KEncoder::new();
    assert_eq!(e.get_token_count("héllo").unwrap(), 6);
}

#[test]
fn token_splitter_decodes_each_block() {
    let s = TokenTextSplitter::new(2, 0);
    assert_eq!(s.split_text("abcde").unwrap(), vec!["ab", "cd", "e"]);
}

#[test]
fn token_splitter_empty_text_any_overlap() {
    let s = TokenTextSplitter::new(0, 5);
    assert!(s.split_text("").unwrap().is_empty());
}
