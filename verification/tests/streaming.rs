use langchain_core::errors::ChainError;
use langchain_core::streaming::{ByteChunk, StreamEvent, StreamManager};
use serde_json::Value;
use std::collections::HashMap;

fn obj(pairs: &[(&str, Value)]) -> Value {
    let mut m = serde_json::Map::new();
    for (k, v) in pairs {
        m.insert(k.to_string(), v.clone());
    }
    Value::Object(m)
}

#[test]
fn test_byte_chunk_new() {
    let chunk = ByteChunk::new(vec![1, 2, 3]);
    assert_eq!(chunk.data, vec![1, 2, 3]);
    assert!(chunk.metadata.is_empty());
}

#[test]
fn test_byte_chunk_empty() {
    let chunk = ByteChunk::new(vec![]);
    assert!(chunk.data.is_empty());
}

#[test]
fn test_byte_chunk_with_metadata() {
    let mut meta = HashMap::new();
    meta.insert("key".into(), serde_json::Value::String("val".into()));
    let chunk = ByteChunk::new(vec![0]).with_metadata(meta);
    assert_eq!(chunk.metadata.get("key").unwrap(), "val");
}

#[test]
fn test_byte_chunk_clone() {
    let chunk = ByteChunk::new(vec![1, 2, 3]);
    let cloned = chunk.clone();
    assert_eq!(cloned.data, vec![1, 2, 3]);
}

#[test]
fn test_stream_event_start() {
    let event = StreamEvent::Start {
        name: "chain".into(),
        input: obj(&[("x", Value::from(1))]),
    };
    match event {
        StreamEvent::Start { name, input } => {
            assert_eq!(name, "chain");
            assert_eq!(input["x"], 1);
        }
        _ => panic!("expected Start"),
    }
}

#[test]
fn test_stream_event_chunk() {
    let event = StreamEvent::Chunk {
        chunk: obj(&[("token", Value::String("hello".into()))]),
    };
    match event {
        StreamEvent::Chunk { chunk } => {
            assert_eq!(chunk["token"], "hello");
        }
        _ => panic!("expected Chunk"),
    }
}

#[test]
fn test_stream_event_end() {
    let event = StreamEvent::End {
        name: "chain".into(),
        output: Value::String("done".into()),
    };
    match event {
        StreamEvent::End { name, output } => {
            assert_eq!(name, "chain");
            assert_eq!(output, "done");
        }
        _ => panic!("expected End"),
    }
}

#[test]
fn test_stream_event_error() {
    let event = StreamEvent::Error {
        error: "something went wrong".into(),
    };
    match event {
        StreamEvent::Error { error } => {
            assert_eq!(error, "something went wrong");
        }
        _ => panic!("expected Error"),
    }
}

#[test]
fn test_stream_event_clone() {
    let event = StreamEvent::Start {
        name: "test".into(),
        input: Value::Null,
    };
    let cloned = event.clone();
    match cloned {
        StreamEvent::Start { name, .. } => assert_eq!(name, "test"),
        _ => panic!("expected Start"),
    }
}

#[test]
fn test_streaming_send_sync() {
    fn assert_send<T: Send>() {}
    fn assert_sync<T: Sync>() {}
    assert_send::<ByteChunk>();
    assert_sync::<ByteChunk>();
    assert_send::<StreamEvent>();
    assert_sync::<StreamEvent>();
}

#[test]
fn stream_manager_push_without_channel_fails() {
    let manager = StreamManager::new(8);
    match manager.push(ByteChunk::new(vec![1])) {
        Err(ChainError::StreamError(m)) => assert_eq!(m, "No channel configured"),
        _ => panic!("expected a stream error"),
    }
    match manager.push_error(ChainError::StreamError("boom".into())) {
        Err(ChainError::StreamError(m)) => assert_eq!(m, "No channel configured"),
        _ => panic!("expected a stream error"),
    }
}

#[test]
fn stream_manager_delivers_chunks_and_errors_in_order() {
    let mut manager = StreamManager::new(8);
    let mut rx = manager.channel();
    assert!(manager.push(ByteChunk::new(vec![1, 2])).is_ok());
    assert!(manager.push_error(ChainError::StreamError("bad".into())).is_ok());
    manager.close();
    assert!(manager.push(ByteChunk::new(vec![3])).is_ok());
    match rx.try_recv() {
        Ok(Ok(chunk)) => assert_eq!(chunk.data, vec![1, 2]),
        _ => panic!("expected the first chunk"),
    }
    match rx.try_recv() {
        Ok(Err(ChainError::StreamError(m))) => assert_eq!(m, "bad"),
        _ => panic!("expected the error"),
    }
    match rx.try_recv() {
        Ok(Ok(chunk)) => assert_eq!(chunk.data, vec![3]),
        _ => panic!("expected the last chunk"),
    }
}

#[test]
fn stream_manager_push_after_receiver_dropped_fails() {
    let mut manager = StreamManager::new(1);
    let rx = manager.channel();
    drop(rx);
    match manager.push(ByteChunk::new(vec![1])) {
        Err(ChainError::StreamError(m)) => assert_eq!(m, "Failed to push chunk: channel closed"),
        _ => panic!("expected a closed-channel error"),
    }
    match manager.push_error(ChainError::StreamError("x".into())) {
        Err(ChainError::StreamError(m)) => assert_eq!(m, "Failed to push error: channel closed"),
        _ => panic!("expected a closed-channel error"),
    }
}
