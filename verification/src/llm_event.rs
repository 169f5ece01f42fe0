//! The events of a model's streamed answer, and the tool calls assembled
//! from them.
use vstd::prelude::*;
use vstd::string::StringExecFns;
use serde_json::Value;
use crate::json::{JsonModel, json_empty_object, json_parse, json_to_string, json_to_text, json_view, parse_json};
use crate::plans::PlanStep;
use crate::text::{owned, trim, trimmed};
use crate::types::{FunctionCall, ToolCallRecord};

verus! {

/// One event of a streamed answer.
#[derive(Debug, Clone)]
pub enum LlmStreamEvent {
    TextDelta { text: String },
    /// A piece of the model's reasoning.
    ReasoningDelta { text: String },
    ToolCallStart { index: u32, id: String, name: String },
    /// A piece of a tool call's arguments (JSON text, sent in parts).
    ToolCallDelta { index: u32, arguments: String },
    ToolCallDone { index: u32, arguments: Value },
    /// The result of a tool, added by the caller that ran it.
    ToolResult { call_id: String, name: String, result: Value, success: bool },
    Reference { source_type: String, title: String, url: String, snippet: Option<String> },
    AudioDelta { data: String, format: String },
    Error { code: String, message: String },
    Warning { code: String, message: String },
    Usage { input_tokens: u32, output_tokens: u32, reasoning_tokens: Option<u32> },
    Metadata { model: String, finish_reason: Option<String>, request_id: Option<String> },
    /// The end of the answer.
    Done,
    /// The start of a content block (text, thinking or tool).
    BlockStart { block_type: String, order_num: i32 },
    PlanStart { plan_id: String, order_num: i32 },
    PlanSteps { plan_id: String, reasoning: String, steps: Vec<PlanStep> },
    PlanUpdate { plan_id: String, step_results: Option<String>, stop_reason: String },
}

/// The payload of a stream chunk pushed to the front end: the account it
/// belongs to and the event.
#[derive(Debug, Clone)]
pub struct LlmChunkEnvelope {
    pub account_id: String,
    pub event: LlmStreamEvent,
}

impl LlmChunkEnvelope {
    /// Wraps `event` for `account_id`.
    pub fn new(account_id: &str, event: LlmStreamEvent) -> (r: LlmChunkEnvelope)
        ensures
            r.account_id@ == account_id@,
            r.event == event,
    {
        LlmChunkEnvelope { account_id: owned(account_id), event }
    }
}

/// The arguments of a finished tool call: `{}` when none arrived or they do
/// not parse, else the parsed JSON.
pub open spec fn call_arguments(text: Seq<char>) -> JsonModel {
    if text.len() == 0 {
        JsonModel::Object(Seq::empty())
    } else {
        match json_parse(text) {
            Ok(j) => j,
            Err(_) => JsonModel::Object(Seq::empty()),
        }
    }
}

/// Like [`call_arguments`], but text that does not parse is tried once more
/// without surrounding whitespace.
pub open spec fn call_arguments_lenient(text: Seq<char>) -> JsonModel {
    if text.len() == 0 {
        JsonModel::Object(Seq::empty())
    } else {
        match json_parse(text) {
            Ok(j) => j,
            Err(_) => match json_parse(trim(text)) {
                Ok(j) => j,
                Err(_) => JsonModel::Object(Seq::empty()),
            },
        }
    }
}

/// Arguments text in canonical form once the call is complete: text that
/// parses is written back as compact JSON; anything else is kept.
pub open spec fn canonical_arguments(text: Seq<char>) -> Seq<char> {
    if text.len() == 0 {
        text
    } else {
        match json_parse(text) {
            Ok(j) => match json_to_text(j) {
                Some(t) => t,
                None => text,
            },
            Err(_) => text,
        }
    }
}

/// A tool call whose arguments are still arriving.
pub struct PendingToolCall {
    pub index: u32,
    pub id: String,
    pub name: String,
    /// The arguments text received so far.
    pub arguments: String,
}

impl PendingToolCall {
    /// A call that has just started.
    pub fn new(index: u32, id: String, name: String) -> (r: PendingToolCall)
        ensures
            r.index == index,
            r.id == id,
            r.name == name,
            r.arguments@.len() == 0,
    {
        PendingToolCall { index, id, name, arguments: String::new() }
    }

    /// Appends a piece of the arguments.
    pub fn push_arguments(&mut self, piece: &str)
        ensures
            final(self).arguments@ == old(self).arguments@ + piece@,
            final(self).index == old(self).index,
            final(self).id == old(self).id,
            final(self).name == old(self).name,
    {
        self.arguments.append(piece);
    }

    /// Writes the arguments in canonical form (see [`canonical_arguments`]).
    pub fn canonicalize(&mut self)
        ensures
            final(self).arguments@ == canonical_arguments(old(self).arguments@),
            final(self).index == old(self).index,
            final(self).id == old(self).id,
            final(self).name == old(self).name,
    {
        if self.arguments.as_str().is_empty() {
            return;
        }
        match parse_json(self.arguments.as_str()) {
            Ok(v) => match json_to_string(&v) {
                Some(t) => {
                    self.arguments = t;
                },
                None => {},
            },
            Err(_) => {},
        }
    }

    /// The finished call as a record (not yet run), its arguments as in
    /// [`call_arguments`].
    pub fn finalize(self) -> (r: ToolCallRecord)
        ensures
            r.call_id == self.id,
            r.name == self.name,
            json_view(r.arguments) == call_arguments(self.arguments@),
            r.result is None,
            !r.success,
    {
        let arguments = parse_arguments(self.arguments.as_str());
        ToolCallRecord { call_id: self.id, name: self.name, arguments, result: None, success: false }
    }

    /// The finished call, its arguments as in [`call_arguments_lenient`].
    pub fn finalize_call(self) -> (r: FunctionCall)
        ensures
            r.id == self.id,
            r.name == self.name,
            json_view(r.arguments) == call_arguments_lenient(self.arguments@),
    {
        let text = self.arguments.as_str();
        let arguments = if text.is_empty() {
            json_empty_object()
        } else {
            match parse_json(text) {
                Ok(v) => v,
                Err(_) => {
                    let t = trimmed(text);
                    match parse_json(t.as_str()) {
                        Ok(v) => v,
                        Err(_) => json_empty_object(),
                    }
                },
            }
        };
        FunctionCall { id: self.id, name: self.name, arguments }
    }
}

/// Parses arguments text as in [`call_arguments`].
pub fn parse_arguments(text: &str) -> (r: Value)
    ensures
        json_view(r) == call_arguments(text@),
{
    if text.is_empty() {
        json_empty_object()
    } else {
        match parse_json(text) {
            Ok(v) => v,
            Err(_) => json_empty_object(),
        }
    }
}

} // verus!
