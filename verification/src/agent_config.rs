//! Configuration of the agent loop.
use vstd::prelude::*;
use std::time::Duration;
use crate::clock::{duration_from_secs, duration_nanos};

verus! {

/// Limits and policies of the agent loop.
#[derive(Debug, Clone, Copy)]
pub struct AgentConfig {
    /// Most iterations of the loop.
    pub max_steps: u32,
    /// Time allowed for one step (LLM call and tools).
    pub timeout_per_step: Duration,
    /// Time allowed for the whole run.
    pub timeout_total: Duration,
    /// Consecutive empty replies after which the loop stops.
    pub empty_response_threshold: u32,
    /// Consecutive errors after which the loop stops.
    pub error_threshold: u32,
    /// Whether an empty reply lets the loop go on.
    pub continue_on_empty: bool,
    /// Whether a failed tool lets the loop go on.
    pub continue_on_tool_error: bool,
}

/// The defaults: 10 steps, 60 s per step, 300 s in all, stop after 3 empty
/// replies or 5 errors, stop on empty replies, go on after tool errors.
pub open spec fn is_default_config(c: AgentConfig) -> bool {
    &&& c.max_steps == 10
    &&& duration_nanos(c.timeout_per_step) == 60 * 1_000_000_000
    &&& duration_nanos(c.timeout_total) == 300 * 1_000_000_000
    &&& c.empty_response_threshold == 3
    &&& c.error_threshold == 5
    &&& !c.continue_on_empty
    &&& c.continue_on_tool_error
}

impl Default for AgentConfig {
    fn default() -> (r: Self)
        ensures
            is_default_config(r),
    {
        AgentConfig {
            max_steps: 10,
            timeout_per_step: duration_from_secs(60),
            timeout_total: duration_from_secs(300),
            empty_response_threshold: 3,
            error_threshold: 5,
            continue_on_empty: false,
            continue_on_tool_error: true,
        }
    }
}

impl AgentConfig {
    /// The default configuration.
    pub fn new() -> (r: Self)
        ensures
            is_default_config(r),
    {
        AgentConfig::default()
    }

    /// Sets the most iterations.
    pub fn with_max_steps(self, steps: u32) -> (r: Self)
        ensures
            r == (AgentConfig { max_steps: steps, ..self }),
    {
        let mut c = self;
        c.max_steps = steps;
        c
    }

    /// Sets the time allowed per step.
    pub fn with_timeout_per_step(self, timeout: Duration) -> (r: Self)
        ensures
            r == (AgentConfig { timeout_per_step: timeout, ..self }),
    {
        let mut c = self;
        c.timeout_per_step = timeout;
        c
    }

    /// Sets the time allowed in all.
    pub fn with_timeout_total(self, timeout: Duration) -> (r: Self)
        ensures
            r == (AgentConfig { timeout_total: timeout, ..self }),
    {
        let mut c = self;
        c.timeout_total = timeout;
        c
    }

    /// Sets the empty-reply threshold.
    pub fn with_empty_threshold(self, threshold: u32) -> (r: Self)
        ensures
            r == (AgentConfig { empty_response_threshold: threshold, ..self }),
    {
        let mut c = self;
        c.empty_response_threshold = threshold;
        c
    }

    /// Sets the error threshold.
    pub fn with_error_threshold(self, threshold: u32) -> (r: Self)
        ensures
            r == (AgentConfig { error_threshold: threshold, ..self }),
    {
        let mut c = self;
        c.error_threshold = threshold;
        c
    }

    /// Sets whether an empty reply lets the loop go on.
    pub fn continue_on_empty(self, continue_on: bool) -> (r: Self)
        ensures
            r == (AgentConfig { continue_on_empty: continue_on, ..self }),
    {
        let mut c = self;
        c.continue_on_empty = continue_on;
        c
    }

    /// Sets whether a failed tool lets the loop go on.
    pub fn continue_on_tool_error(self, continue_on: bool) -> (r: Self)
        ensures
            r == (AgentConfig { continue_on_tool_error: continue_on, ..self }),
    {
        let mut c = self;
        c.continue_on_tool_error = continue_on;
        c
    }
}

} // verus!
