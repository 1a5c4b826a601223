//! The configuration a runnable is invoked with.

use std::collections::HashMap;
use vstd::prelude::*;

verus! {

/// Tags, metadata, callback names and limits for a run.
#[derive(Debug, Clone)]
pub struct RunnableConfig {
    /// Tags for filtering and tracing.
    pub tags: Vec<String>,
    /// Metadata by key.
    pub metadata: HashMap<String, serde_json::Value>,
    /// Names of callback handlers to invoke.
    pub callbacks: Vec<String>,
    /// Maximum depth of nested runnable calls.
    pub recursion_limit: usize,
    /// Maximum number of concurrent operations, if limited.
    pub max_concurrency: Option<usize>,
}

impl Default for RunnableConfig {
    /// No tags, metadata or callbacks, a recursion limit of 25 and no
    /// concurrency limit.
    fn default() -> (res: Self)
        ensures
            res.tags@ == Seq::<String>::empty(),
            res.callbacks@ == Seq::<String>::empty(),
            res.metadata@ == Map::<String, serde_json::Value>::empty(),
            res.recursion_limit == 25,
            res.max_concurrency is None,
    {
        RunnableConfig {
            tags: Vec::new(),
            metadata: HashMap::new(),
            callbacks: Vec::new(),
            recursion_limit: 25,
            max_concurrency: None,
        }
    }
}

} // verus!
