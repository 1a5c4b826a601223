//! Expression-language building blocks whose construction does not await.

use crate::errors::ChainError;
use vstd::prelude::*;

verus! {

/// A runnable that returns its input unchanged, for any input type.
#[derive(Debug)]
pub struct RunnablePassthrough<I> {
    _marker: std::marker::PhantomData<I>,
}

impl<I> RunnablePassthrough<I> {
    /// Creates a new passthrough.
    pub fn new() -> (res: Self) {
        RunnablePassthrough { _marker: std::marker::PhantomData }
    }

    /// Returns `input` unchanged.
    pub fn pass(&self, input: I) -> (res: I)
        ensures
            res == input,
    {
        input
    }
}

/// A runnable meant to run several runnables side by side; it runs none
/// yet, and every invocation fails with `Not implemented`.
#[derive(Debug)]
pub struct RunnableParallel<I, O> {
    _marker: std::marker::PhantomData<(I, O)>,
}

impl<I, O> RunnableParallel<I, O> {
    /// Creates a new parallel runnable.
    pub fn new() -> (res: Self) {
        RunnableParallel { _marker: std::marker::PhantomData }
    }

    /// Invokes the runnable: an LLM error `Not implemented`, whatever the
    /// input.
    pub fn invoke(&self, input: I) -> (res: Result<O, ChainError>)
        ensures
            res matches Err(ChainError::LLMError(m)) && m@ == "Not implemented"@,
    {
        Err(ChainError::LLMError(String::from_str("Not implemented")))
    }
}

} // verus!
