//! Statistics of indexing documents into a vector store.

use vstd::prelude::*;

verus! {

/// Statistics returned by an indexing operation.
#[derive(Debug, Clone, Copy, PartialEq, Eq, Structural)]
pub struct IndexingResult {
    /// Number of documents newly added.
    pub num_added: usize,
    /// Number of documents updated.
    pub num_updated: usize,
    /// Number of documents deleted.
    pub num_deleted: usize,
    /// Number of documents skipped as up to date.
    pub num_skipped: usize,
}

impl IndexingResult {
    /// The result of adding `count` documents: all added, none updated,
    /// deleted or skipped.
    pub fn all_added(count: usize) -> (res: Self)
        ensures
            res == (IndexingResult { num_added: count, num_updated: 0, num_deleted: 0, num_skipped: 0 }),
    {
        IndexingResult { num_added: count, num_updated: 0, num_deleted: 0, num_skipped: 0 }
    }
}

} // verus!
