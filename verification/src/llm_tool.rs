//! Running tools for the model.
//!
//! Tools are run by the caller (an MCP manager, a skill registry, ...); the
//! library only needs to carry the function that runs them.
use vstd::prelude::*;

verus! {

/// A tool runner made from a function of the caller's: the function takes
/// the call and gives its result.
pub struct FnToolExecutor<F> {
    executor: F,
}

impl<F> FnToolExecutor<F> {
    /// Wraps `executor`.
    pub fn new(executor: F) -> (r: Self)
        ensures
            r.function() == executor,
    {
        FnToolExecutor { executor }
    }

    /// The wrapped function.
    pub closed spec fn function(&self) -> F {
        self.executor
    }

    /// The wrapped function, to be called.
    pub fn executor(&self) -> (r: &F)
        ensures
            *r == self.function(),
    {
        &self.executor
    }
}

} // verus!
