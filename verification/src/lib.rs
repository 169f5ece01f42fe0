//! Core logic of an LLM agent runtime: tool-name conventions, plan and intent
//! parsing, prompt and message construction, the agent loop's stop rules, the
//! plan executor's observe decisions and a circuit breaker for MCP connections.
use vstd::prelude::*;

pub mod text;
pub mod seqs;
pub mod tools;
pub mod json;
pub mod error;
pub mod types;
pub mod plans;
pub mod intent_prompt;
pub mod clock;
pub mod agent_config;
pub mod message_context;
pub mod exploratory_prompt;
pub mod circuit;
pub mod mcp;
pub mod step_context;
pub mod plan_types;
pub mod plan_executor;
pub mod step_exec;
pub mod exploratory;
pub mod llm_event;
pub mod tool_batch;
pub mod agent;
pub mod tool_intent;
pub mod stream_decode;
pub mod planner;
pub mod providers;
pub mod mcp_error;
pub mod decision;
pub mod llm_tool;

verus! {

} // verus!
