//! One round of an ordinary chat with tools: the streamed answer is read
//! event by event, tool calls are assembled, then run by the caller, and
//! the results are gathered.
use vstd::prelude::*;
use vstd::string::StringExecFns;
use std::time::Instant;
use serde_json::Value;
use crate::clock::{elapsed_millis, now};
use crate::error::ToolExecError;
use crate::json::{JsonModel, json_clone, json_into_object, json_map_entries, json_map_new, json_string, json_view};
use crate::llm_event::{LlmStreamEvent, PendingToolCall, call_arguments, canonical_arguments};
use crate::plan_types::tool_error_text;
use crate::text::owned;
use crate::types::ToolCallRecord;

verus! {

// ---------------------------------------------------------------------------
// Counting tool calls
// ---------------------------------------------------------------------------

/// What happened to the tool calls of a round.
pub struct ToolExecContext {
    pub had_tool_call: bool,
    pub total_calls: u32,
    pub successful_calls: u32,
    pub failed_calls: u32,
    /// When the context was made.
    pub start_time: Instant,
}

impl ToolExecContext {
    /// No calls yet; the clock starts now.
    pub fn new() -> (r: ToolExecContext)
        ensures
            !r.had_tool_call,
            r.total_calls == 0,
            r.successful_calls == 0,
            r.failed_calls == 0,
    {
        ToolExecContext { had_tool_call: false, total_calls: 0, successful_calls: 0, failed_calls: 0, start_time: now() }
    }

    /// Counts one call, successful or not.
    pub fn record_call(&mut self, success: bool)
        requires
            old(self).total_calls < u32::MAX,
            success ==> old(self).successful_calls < u32::MAX,
            !success ==> old(self).failed_calls < u32::MAX,
        ensures
            final(self).had_tool_call,
            final(self).total_calls == old(self).total_calls + 1,
            final(self).successful_calls == old(self).successful_calls + (if success { 1int } else { 0 }),
            final(self).failed_calls == old(self).failed_calls + (if success { 0int } else { 1 }),
    {
        self.had_tool_call = true;
        self.total_calls = self.total_calls + 1;
        if success {
            self.successful_calls = self.successful_calls + 1;
        } else {
            self.failed_calls = self.failed_calls + 1;
        }
    }

    /// Milliseconds since the context was made (it reads the clock).
    pub fn elapsed_ms(&self) -> u64 {
        elapsed_millis(&self.start_time)
    }
}

impl Default for ToolExecContext {
    fn default() -> (r: ToolExecContext)
        ensures
            !r.had_tool_call,
            r.total_calls == 0,
            r.successful_calls == 0,
            r.failed_calls == 0,
    {
        ToolExecContext::new()
    }
}

// ---------------------------------------------------------------------------
// Content blocks
// ---------------------------------------------------------------------------

/// Numbers the content blocks of an answer: a new block starts whenever the
/// block type changes.
pub struct BlockSender {
    current_block_type: Option<String>,
    next_order_num: i32,
}

impl BlockSender {
    /// No block yet; the first one gets number 1.
    pub fn new() -> (r: BlockSender)
        ensures
            r.current_type_view() is None,
            r.next_order() == 1,
    {
        BlockSender { current_block_type: None, next_order_num: 1 }
    }

    /// The type of the current block.
    pub closed spec fn current_type_view(&self) -> Option<Seq<char>> {
        match self.current_block_type {
            Some(t) => Some(t@),
            None => None,
        }
    }

    /// The number the next block gets.
    pub closed spec fn next_order(&self) -> i32 {
        self.next_order_num
    }

    /// Starts a block of type `block_type` unless the current block has
    /// that type; returns the new block's number.
    pub fn send(&mut self, block_type: &str) -> (r: Option<i32>)
        requires
            old(self).current_type_view() != Some(block_type@) ==> old(self).next_order() < i32::MAX,
        ensures
            old(self).current_type_view() == Some(block_type@) ==> r is None && final(self).current_type_view()
                == old(self).current_type_view() && final(self).next_order() == old(self).next_order(),
            old(self).current_type_view() != Some(block_type@) ==> r == Some(old(self).next_order())
                && final(self).current_type_view() == Some(block_type@) && final(self).next_order()
                == old(self).next_order() + 1,
    {
        let key = owned(block_type);
        let same = match &self.current_block_type {
            Some(t) => *t == key,
            None => false,
        };
        if same {
            return None;
        }
        let order_num = self.next_order_num;
        self.next_order_num = self.next_order_num + 1;
        self.current_block_type = Some(key);
        Some(order_num)
    }

    /// The type of the current block.
    pub fn current_type(&self) -> (r: Option<&str>)
        ensures
            match r {
                Some(t) => self.current_type_view() == Some(t@),
                None => self.current_type_view() is None,
            },
    {
        match &self.current_block_type {
            Some(t) => Some(t.as_str()),
            None => None,
        }
    }

    /// The number the next block gets.
    pub fn peek_order_num(&self) -> (r: i32)
        ensures
            r == self.next_order(),
    {
        self.next_order_num
    }
}

// ---------------------------------------------------------------------------
// The round
// ---------------------------------------------------------------------------

/// The outcome of a round: the answer's text and the tool calls with their
/// results.
#[derive(Debug, Clone)]
pub struct ProcessResult {
    pub text: String,
    pub tool_calls: Vec<ToolCallRecord>,
}

/// Whether `r` is the record of the finished call `p`, not yet run.
pub open spec fn finalized_from(r: ToolCallRecord, p: PendingToolCall) -> bool {
    &&& r.call_id == p.id
    &&& r.name == p.name
    &&& json_view(r.arguments) == call_arguments(p.arguments@)
    &&& r.result is None
    &&& !r.success
}

/// `pending` after the current call (if any) is finished.
pub open spec fn pending_after(pending: Seq<ToolCallRecord>, cur: Option<PendingToolCall>, next: Seq<ToolCallRecord>) -> bool {
    match cur {
        Some(p) => next.len() == pending.len() + 1 && next.drop_last() == pending && finalized_from(next.last(), p),
        None => next == pending,
    }
}

/// Whether `e` reports a tool's result.
pub open spec fn is_result_event(e: LlmStreamEvent, id: Seq<char>, name: Seq<char>, result: JsonModel, success: bool) -> bool {
    e matches LlmStreamEvent::ToolResult { call_id, name: n, result: v, success: s } && call_id@ == id && n@ == name
        && json_view(v) == result && s == success
}

/// A round in progress.
pub struct ToolBatch {
    pending: Vec<ToolCallRecord>,
    current: Option<PendingToolCall>,
    counts: ToolExecContext,
    reply: String,
    blocks: BlockSender,
    tool_calls: Vec<ToolCallRecord>,
}

impl ToolBatch {
    /// The answer's text so far.
    pub closed spec fn reply_view(&self) -> Seq<char> {
        self.reply@
    }

    /// The finished calls not yet run.
    pub closed spec fn pending_view(&self) -> Seq<ToolCallRecord> {
        self.pending@
    }

    /// The call whose arguments are arriving.
    pub closed spec fn current_view(&self) -> Option<PendingToolCall> {
        self.current
    }

    /// The calls that ran (or were refused), in order.
    pub closed spec fn done_view(&self) -> Seq<ToolCallRecord> {
        self.tool_calls@
    }

    /// The counts of calls.
    pub closed spec fn exec_view(&self) -> ToolExecContext {
        self.counts
    }

    /// The type of the current content block.
    pub closed spec fn block_view(&self) -> Option<Seq<char>> {
        self.blocks.current_type_view()
    }

    /// The number of the next content block.
    pub closed spec fn next_block(&self) -> i32 {
        self.blocks.next_order()
    }

    /// Whether a tool block can still open: the current block is one, or
    /// block numbers are left.
    pub fn block_room(&self) -> (r: bool)
        ensures
            r == (self.block_view() == Some("tool"@) || self.next_block() < i32::MAX),
    {
        let is_tool = match self.blocks.current_type() {
            Some(t) => owned(t) == owned("tool"),
            None => false,
        };
        proof {
            reveal_strlit("tool");
        }
        is_tool || self.blocks.peek_order_num() < i32::MAX
    }

    /// Whether another call can be counted.
    pub fn count_room(&self) -> (r: bool)
        ensures
            r == (self.exec_view().total_calls < u32::MAX && self.exec_view().successful_calls < u32::MAX
                && self.exec_view().failed_calls < u32::MAX),
    {
        self.counts.total_calls < u32::MAX && self.counts.successful_calls < u32::MAX && self.counts.failed_calls < u32::MAX
    }

    /// Starts a round: a text block opens (block 1).
    pub fn new() -> (r: (ToolBatch, LlmStreamEvent))
        ensures
            r.0.reply_view().len() == 0,
            r.0.pending_view().len() == 0,
            r.0.current_view() is None,
            r.0.done_view().len() == 0,
            r.0.exec_view().total_calls == 0,
            r.0.exec_view().successful_calls == 0,
            r.0.exec_view().failed_calls == 0,
            r.0.block_view() == Some("text"@),
            r.0.next_block() == 2,
            r.1 matches LlmStreamEvent::BlockStart { block_type, order_num } && block_type@ == "text"@ && order_num == 1,
    {
        let mut blocks = BlockSender::new();
        let n = blocks.send("text");
        let b = ToolBatch {
            pending: Vec::new(),
            current: None,
            counts: ToolExecContext::new(),
            reply: String::new(),
            blocks,
            tool_calls: Vec::new(),
        };
        let order_num = match n {
            Some(k) => k,
            None => 1,
        };
        (b, LlmStreamEvent::BlockStart { block_type: owned("text"), order_num })
    }

    /// Reads one event of the answer. Text is collected; a new tool call
    /// finishes the previous one and opens a tool block; pieces of arguments
    /// are collected, and put in canonical form when the call is complete;
    /// `Done` ends the answer (`false`). Returns the events to pass on to
    /// the front end.
    pub fn on_event(&mut self, event: LlmStreamEvent) -> (r: (bool, Vec<LlmStreamEvent>))
        requires
            old(self).block_view() != Some("tool"@) ==> old(self).next_block() < i32::MAX,
        ensures
            final(self).done_view() == old(self).done_view(),
            final(self).exec_view() == old(self).exec_view(),
            match event {
                LlmStreamEvent::TextDelta { text } => {
                    &&& r.0
                    &&& final(self).reply_view() == old(self).reply_view() + text@
                    &&& r.1@.len() == 1
                    &&& r.1@[0] matches LlmStreamEvent::TextDelta { text: t } && t@ == text@
                    &&& final(self).pending_view() == old(self).pending_view()
                    &&& final(self).current_view() == old(self).current_view()
                    &&& final(self).block_view() == old(self).block_view()
                },
                LlmStreamEvent::ToolCallStart { index, id, name } => {
                    &&& r.0
                    &&& final(self).reply_view() == old(self).reply_view()
                    &&& pending_after(old(self).pending_view(), old(self).current_view(), final(self).pending_view())
                    &&& final(self).current_view() matches Some(p) && p.index == index && p.id@ == id@ && p.name@
                        == name@ && p.arguments@.len() == 0
                    &&& final(self).block_view() == Some("tool"@)
                    &&& r.1@.len() == (if old(self).block_view() == Some("tool"@) { 1int } else { 2 })
                    &&& old(self).block_view() != Some("tool"@) ==> (r.1@[0] matches LlmStreamEvent::BlockStart {
                        block_type,
                        order_num,
                    } && block_type@ == "tool"@ && order_num == old(self).next_block())
                    &&& r.1@.last() matches LlmStreamEvent::ToolCallStart { index: i, id: d, name: n } && i == index
                        && d@ == id@ && n@ == name@
                },
                LlmStreamEvent::ToolCallDelta { index, arguments } => {
                    &&& r.0
                    &&& final(self).reply_view() == old(self).reply_view()
                    &&& final(self).pending_view() == old(self).pending_view()
                    &&& final(self).block_view() == old(self).block_view()
                    &&& match old(self).current_view() {
                        Some(p) => final(self).current_view() matches Some(q) && q.index == p.index && q.id == p.id
                            && q.name == p.name && q.arguments@ == p.arguments@ + arguments@,
                        None => final(self).current_view() is None,
                    }
                    &&& r.1@.len() == 1
                    &&& r.1@[0] matches LlmStreamEvent::ToolCallDelta { index: i, arguments: a } && i == index && a@
                        == arguments@
                },
                LlmStreamEvent::ToolCallDone { index, arguments } => {
                    &&& r.0
                    &&& final(self).reply_view() == old(self).reply_view()
                    &&& final(self).pending_view() == old(self).pending_view()
                    &&& final(self).block_view() == old(self).block_view()
                    &&& match old(self).current_view() {
                        Some(p) => final(self).current_view() matches Some(q) && q.index == p.index && q.id == p.id
                            && q.name == p.name && q.arguments@ == canonical_arguments(p.arguments@),
                        None => final(self).current_view() is None,
                    }
                    &&& r.1@.len() == 1
                    &&& r.1@[0] matches LlmStreamEvent::ToolCallDone { index: i, arguments: a } && i == index
                        && json_view(a) == json_view(arguments)
                },
                LlmStreamEvent::Done => {
                    &&& !r.0
                    &&& r.1@.len() == 0
                    &&& final(self).reply_view() == old(self).reply_view()
                    &&& final(self).pending_view() == old(self).pending_view()
                    &&& final(self).current_view() == old(self).current_view()
                    &&& final(self).block_view() == old(self).block_view()
                },
                _ => {
                    &&& r.0
                    &&& r.1@ == seq![event]
                    &&& final(self).reply_view() == old(self).reply_view()
                    &&& final(self).pending_view() == old(self).pending_view()
                    &&& final(self).current_view() == old(self).current_view()
                    &&& final(self).block_view() == old(self).block_view()
                },
            },
    {
        let mut out: Vec<LlmStreamEvent> = Vec::new();
        match event {
            LlmStreamEvent::TextDelta { text } => {
                self.reply.append(text.as_str());
                out.push(LlmStreamEvent::TextDelta { text });
                (true, out)
            },
            LlmStreamEvent::ToolCallStart { index, id, name } => {
                match self.blocks.send("tool") {
                    Some(order_num) => {
                        out.push(LlmStreamEvent::BlockStart { block_type: owned("tool"), order_num });
                    },
                    None => {},
                }
                out.push(LlmStreamEvent::ToolCallStart { index, id: owned(id.as_str()), name: owned(name.as_str()) });
                self.finish_current();
                self.current = Some(PendingToolCall::new(index, id, name));
                (true, out)
            },
            LlmStreamEvent::ToolCallDelta { index, arguments } => {
                match &mut self.current {
                    Some(p) => p.push_arguments(arguments.as_str()),
                    None => {},
                }
                out.push(LlmStreamEvent::ToolCallDelta { index, arguments });
                (true, out)
            },
            LlmStreamEvent::ToolCallDone { index, arguments } => {
                match &mut self.current {
                    Some(p) => p.canonicalize(),
                    None => {},
                }
                out.push(LlmStreamEvent::ToolCallDone { index, arguments });
                (true, out)
            },
            LlmStreamEvent::Done => (false, out),
            other => {
                out.push(other);
                (true, out)
            },
        }
    }

    fn finish_current(&mut self)
        ensures
            pending_after(old(self).pending_view(), old(self).current_view(), final(self).pending_view()),
            final(self).current_view() is None,
            final(self).reply_view() == old(self).reply_view(),
            final(self).done_view() == old(self).done_view(),
            final(self).exec_view() == old(self).exec_view(),
            final(self).block_view() == old(self).block_view(),
            final(self).next_block() == old(self).next_block(),
    {
        let cur = self.current.take();
        match cur {
            Some(p) => {
                let rec = p.finalize();
                let ghost before = self.pending@;
                self.pending.push(rec);
                assert(self.pending@.drop_last() =~= before);
            },
            None => {},
        }
    }

    /// Ends the answer: the last call is finished and the finished calls are
    /// handed over, to be run in order; the results go into a tool block.
    pub fn finish_stream(&mut self) -> (r: (Vec<ToolCallRecord>, Option<LlmStreamEvent>))
        requires
            old(self).block_view() != Some("tool"@) ==> old(self).next_block() < i32::MAX,
        ensures
            pending_after(old(self).pending_view(), old(self).current_view(), r.0@),
            final(self).pending_view().len() == 0,
            final(self).current_view() is None,
            final(self).reply_view() == old(self).reply_view(),
            final(self).done_view() == old(self).done_view(),
            final(self).exec_view() == old(self).exec_view(),
            final(self).block_view() == Some("tool"@),
            old(self).block_view() == Some("tool"@) ==> r.1 is None,
            old(self).block_view() != Some("tool"@) ==> (r.1 matches Some(LlmStreamEvent::BlockStart { block_type, order_num })
                && block_type@ == "tool"@ && order_num == old(self).next_block()),
    {
        self.finish_current();
        let mut calls: Vec<ToolCallRecord> = Vec::new();
        std::mem::swap(&mut calls, &mut self.pending);
        let ev = match self.blocks.send("tool") {
            Some(order_num) => Some(LlmStreamEvent::BlockStart { block_type: owned("tool"), order_num }),
            None => None,
        };
        (calls, ev)
    }

    /// Records the outcome of running `call`: a result marks it successful,
    /// an error marks it failed with the error's text as a JSON string.
    /// Returns the result event.
    pub fn record_result(&mut self, call: ToolCallRecord, result: Result<Value, ToolExecError>) -> (r: LlmStreamEvent)
        requires
            old(self).exec_view().total_calls < u32::MAX,
            old(self).exec_view().successful_calls < u32::MAX,
            old(self).exec_view().failed_calls < u32::MAX,
        ensures
            final(self).done_view().len() == old(self).done_view().len() + 1,
            final(self).done_view().drop_last() == old(self).done_view(),
            final(self).reply_view() == old(self).reply_view(),
            final(self).pending_view() == old(self).pending_view(),
            final(self).block_view() == old(self).block_view(),
            final(self).exec_view().total_calls == old(self).exec_view().total_calls + 1,
            ({
                let rec = final(self).done_view().last();
                &&& rec.call_id == call.call_id
                &&& rec.name == call.name
                &&& rec.arguments == call.arguments
                &&& match result {
                    Ok(v) => {
                        &&& rec.success
                        &&& rec.result matches Some(x) && json_view(x) == json_view(v)
                        &&& is_result_event(r, call.call_id@, call.name@, json_view(v), true)
                        &&& final(self).exec_view().successful_calls == old(self).exec_view().successful_calls + 1
                        &&& final(self).exec_view().failed_calls == old(self).exec_view().failed_calls
                    },
                    Err(e) => {
                        &&& !rec.success
                        &&& rec.result matches Some(x) && json_view(x) == JsonModel::Str(tool_error_text(e))
                        &&& is_result_event(r, call.call_id@, call.name@, JsonModel::Str(tool_error_text(e)), false)
                        &&& final(self).exec_view().successful_calls == old(self).exec_view().successful_calls
                        &&& final(self).exec_view().failed_calls == old(self).exec_view().failed_calls + 1
                    },
                }
            }),
    {
        let ToolCallRecord { call_id, name, arguments, .. } = call;
        let (success, value) = match result {
            Ok(v) => {
                self.counts.record_call(true);
                (true, v)
            },
            Err(e) => {
                self.counts.record_call(false);
                let t = e.text();
                (false, json_string(t.as_str()))
            },
        };
        let ev = LlmStreamEvent::ToolResult {
            call_id: owned(call_id.as_str()),
            name: owned(name.as_str()),
            result: json_clone(&value),
            success,
        };
        let ghost before = self.tool_calls@;
        self.tool_calls.push(ToolCallRecord { call_id, name, arguments, result: Some(value), success });
        assert(self.tool_calls@.drop_last() =~= before);
        ev
    }

    /// Records a call that could not run for want of an executor; the call
    /// is kept as it is. Returns the failure event.
    pub fn record_unexecuted(&mut self, call: ToolCallRecord) -> (r: LlmStreamEvent)
        ensures
            final(self).done_view() == old(self).done_view().push(call),
            final(self).reply_view() == old(self).reply_view(),
            final(self).pending_view() == old(self).pending_view(),
            final(self).exec_view() == old(self).exec_view(),
            final(self).block_view() == old(self).block_view(),
            is_result_event(r, call.call_id@, call.name@, JsonModel::Str("No executor available"@), false),
    {
        let ev = LlmStreamEvent::ToolResult {
            call_id: owned(call.call_id.as_str()),
            name: owned(call.name.as_str()),
            result: json_string("No executor available"),
            success: false,
        };
        self.tool_calls.push(call);
        ev
    }

    /// The outcome of the round.
    pub fn finish(self) -> (r: ProcessResult)
        ensures
            r.text@ == self.reply_view(),
            r.tool_calls@ == self.done_view(),
    {
        ProcessResult { text: self.reply, tool_calls: self.tool_calls }
    }
}

/// The arguments of a tool call as a map: the object's entries, or none
/// when the arguments are not an object.
pub fn parse_tool_arguments(args: Value) -> (r: serde_json::Map<String, Value>)
    ensures
        json_map_entries(r) == (match json_view(args) {
            JsonModel::Object(es) => es,
            _ => Seq::empty(),
        }),
{
    match json_into_object(args) {
        Some(m) => m,
        None => json_map_new(),
    }
}

} // verus!
