//! Structured queries (a query text with an optional filter and limit) and
//! the constructors that turn a question into one.

use crate::errors::ChainError;
use crate::text::IntoText;
use vstd::prelude::*;

verus! {

/// A query with an optional filter and an optional result limit.
#[derive(Debug, Clone)]
pub struct StructuredQuery {
    /// The query text.
    pub query: String,
    /// A filter on the results.
    pub filter: Option<serde_json::Value>,
    /// The maximum number of results.
    pub limit: Option<usize>,
}

impl StructuredQuery {
    /// A query of `query` without filter or limit.
    pub fn new<S: IntoText>(query: S) -> (res: Self)
        ensures
            res.query@ == query.text_view(),
            res.filter is None,
            res.limit is None,
    {
        StructuredQuery { query: query.into_text(), filter: None, limit: None }
    }

    /// The query with a filter.
    pub fn with_filter(self, filter: serde_json::Value) -> (res: Self)
        ensures
            res.query == self.query,
            res.filter == Some(filter),
            res.limit == self.limit,
    {
        StructuredQuery { filter: Some(filter), ..self }
    }

    /// The query with a limit.
    pub fn with_limit(self, limit: usize) -> (res: Self)
        ensures
            res.query == self.query,
            res.filter == self.filter,
            res.limit == Some(limit),
    {
        StructuredQuery { limit: Some(limit), ..self }
    }
}

/// Turns a question into a structured query.
pub trait QueryConstructor {
    /// The structured query for `question`.
    fn construct(&self, question: &str) -> (res: Result<StructuredQuery, ChainError>);
}

/// A query constructor that uses the question itself as the query, with
/// no filter and no limit.
#[derive(Debug, Clone)]
pub struct DefaultQueryConstructor;

impl DefaultQueryConstructor {
    /// Creates a new [`DefaultQueryConstructor`].
    pub fn new() -> (res: Self) {
        DefaultQueryConstructor
    }

    /// The query text for a question: the question itself.
    pub fn query_text(&self, question: &str) -> (res: String)
        ensures
            res@ == question@,
    {
        question.to_owned()
    }
}

impl QueryConstructor for DefaultQueryConstructor {
    /// The question as the query, without filter or limit; never fails.
    fn construct(&self, question: &str) -> (res: Result<StructuredQuery, ChainError>)
        ensures
            res matches Ok(q) && q.query@ == question@ && q.filter is None && q.limit is None,
    {
        Ok(StructuredQuery::new(self.query_text(question)))
    }
}

} // verus!
