//! Core types, text utilities, prompt templating, output parsing and text
//! splitting for the LangChain framework.

pub mod errors;
pub mod messages;
pub mod text;
pub mod agents;
pub mod tools;
pub mod prompt_values;
pub mod utils;
pub mod text_splitters;
pub mod pattern;
pub mod prompt;
pub mod output_parsers;
pub mod embeddings;
pub mod cross_encoders;
pub mod compressors;
pub mod document_transformers;
pub mod chat_loaders;
pub mod schema;
pub mod tokenization;
pub mod language_models;
pub mod chunk_merge;
pub mod sentence_splitters;
pub mod section_splitters;
pub mod json;
pub mod json_splitters;
pub mod json_parsers;
pub mod tracers;
pub mod runnables;
pub mod graph;
pub mod outputs;
pub mod configurable;
pub mod schemas;
pub mod config;
pub mod retry;
pub mod streaming;
pub mod routing;
pub mod stores;
pub mod doc_stores;
pub mod html_splitter;
pub mod lcel;
pub mod structured_query;
pub mod env;
pub mod indexing;
pub mod retrievers;
pub mod rate_limiters;
pub mod chat_history;
pub mod example_selectors;
pub mod caches;
