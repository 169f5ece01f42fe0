//! The agent loop: the model answers, the tools it calls run, their results
//! go back into the conversation, and so on until a stop rule holds.
//!
//! The caller performs the model and tool calls and reads the clock and the
//! abort flag; an [`AgentRun`] keeps the conversation and the counters and
//! decides.
use vstd::prelude::*;
use vstd::string::StringExecFns;
use vstd::utf8::{decode_utf8, encode_utf8, is_char_boundary};
use serde_json::Value;
use crate::agent_config::AgentConfig;
use crate::error::{LlmError, ToolExecError, llm_error_text};
use crate::json::{JsonModel, json_to_string, json_to_text, json_view};
use crate::llm_event::{LlmStreamEvent, PendingToolCall, call_arguments_lenient};
use crate::plan_types::tool_error_text;
use crate::plan_executor::byte_len;
use crate::text::owned;
use crate::types::{ChatMessage, FunctionCall, Role, ToolCallItem};

verus! {

/// Why the agent loop stopped.
#[derive(Debug, Clone, Copy, PartialEq, Eq, Structural)]
pub enum StopReason {
    /// The model finished.
    Normal,
    MaxStepsReached,
    TimeoutReached,
    EmptyResponseThreshold,
    ErrorThreshold,
    UserAbort,
    /// The model's answer could not be used.
    InvalidResponse,
}

/// The name of a stop reason (`normal`, `max_steps_reached`, ...).
pub open spec fn stop_reason_name(r: StopReason) -> Seq<char> {
    match r {
        StopReason::Normal => "normal"@,
        StopReason::MaxStepsReached => "max_steps_reached"@,
        StopReason::TimeoutReached => "timeout_reached"@,
        StopReason::EmptyResponseThreshold => "empty_response_threshold"@,
        StopReason::ErrorThreshold => "error_threshold"@,
        StopReason::UserAbort => "user_abort"@,
        StopReason::InvalidResponse => "invalid_response"@,
    }
}

impl StopReason {
    /// The name of the reason, as shown to users and stored.
    pub fn name(&self) -> (r: &'static str)
        ensures
            r@ == stop_reason_name(*self),
    {
        match self {
            StopReason::Normal => "normal",
            StopReason::MaxStepsReached => "max_steps_reached",
            StopReason::TimeoutReached => "timeout_reached",
            StopReason::EmptyResponseThreshold => "empty_response_threshold",
            StopReason::ErrorThreshold => "error_threshold",
            StopReason::UserAbort => "user_abort",
            StopReason::InvalidResponse => "invalid_response",
        }
    }
}

/// The events of an agent run.
#[derive(Debug, Clone)]
pub enum AgentStreamEvent {
    /// An event of the model's answer, passed on.
    Llm(LlmStreamEvent),
    AgentStart { step: u32 },
    StepStart { step: u32 },
    StepComplete { step: u32, had_tool_call: bool, tool_call_count: u32 },
    ToolStart { call_id: String, name: String, arguments: Option<String> },
    ToolComplete { call_id: String, name: String, duration_ms: u64, success: bool },
    ToolError { call_id: String, name: String, error: String },
    AgentComplete { total_steps: u32, stop_reason: StopReason, final_content: Option<String> },
    /// Progress of a long operation.
    Progress { step: u32, max_steps: u32, message: String },
}

impl AgentStreamEvent {
    /// Passes on an event of the model's answer.
    pub fn llm(event: LlmStreamEvent) -> (r: AgentStreamEvent)
        ensures
            r == AgentStreamEvent::Llm(event),
    {
        AgentStreamEvent::Llm(event)
    }

    /// The run started.
    pub fn agent_start(step: u32) -> (r: AgentStreamEvent)
        ensures
            r == (AgentStreamEvent::AgentStart { step }),
    {
        AgentStreamEvent::AgentStart { step }
    }

    /// A step started.
    pub fn step_start(step: u32) -> (r: AgentStreamEvent)
        ensures
            r == (AgentStreamEvent::StepStart { step }),
    {
        AgentStreamEvent::StepStart { step }
    }

    /// A step ended.
    pub fn step_complete(step: u32, had_tool_call: bool, tool_call_count: u32) -> (r: AgentStreamEvent)
        ensures
            r == (AgentStreamEvent::StepComplete { step, had_tool_call, tool_call_count }),
    {
        AgentStreamEvent::StepComplete { step, had_tool_call, tool_call_count }
    }

    /// A tool started.
    pub fn tool_start(call_id: &str, name: &str, arguments: Option<String>) -> (r: AgentStreamEvent)
        ensures
            r matches AgentStreamEvent::ToolStart { call_id: c, name: n, arguments: a } && c@ == call_id@ && n@ == name@
                && a == arguments,
    {
        AgentStreamEvent::ToolStart { call_id: owned(call_id), name: owned(name), arguments }
    }

    /// A tool finished.
    pub fn tool_complete(call_id: &str, name: &str, duration_ms: u64, success: bool) -> (r: AgentStreamEvent)
        ensures
            r matches AgentStreamEvent::ToolComplete { call_id: c, name: n, duration_ms: d, success: s } && c@ == call_id@
                && n@ == name@ && d == duration_ms && s == success,
    {
        AgentStreamEvent::ToolComplete { call_id: owned(call_id), name: owned(name), duration_ms, success }
    }

    /// A tool failed.
    pub fn tool_error(call_id: &str, name: &str, error: &str) -> (r: AgentStreamEvent)
        ensures
            r matches AgentStreamEvent::ToolError { call_id: c, name: n, error: e } && c@ == call_id@ && n@ == name@ && e@
                == error@,
    {
        AgentStreamEvent::ToolError { call_id: owned(call_id), name: owned(name), error: owned(error) }
    }

    /// The run ended.
    pub fn agent_complete(total_steps: u32, stop_reason: StopReason, final_content: Option<String>) -> (r: AgentStreamEvent)
        ensures
            r == (AgentStreamEvent::AgentComplete { total_steps, stop_reason, final_content }),
    {
        AgentStreamEvent::AgentComplete { total_steps, stop_reason, final_content }
    }

    /// Progress of a long operation.
    pub fn progress(step: u32, max_steps: u32, message: &str) -> (r: AgentStreamEvent)
        ensures
            r matches AgentStreamEvent::Progress { step: s, max_steps: m, message: t } && s == step && m == max_steps && t@
                == message@,
    {
        AgentStreamEvent::Progress { step, max_steps, message: owned(message) }
    }
}

/// The summary of a finished run.
#[derive(Debug, Clone)]
pub struct AgentResultSummary {
    pub total_steps: u32,
    pub stop_reason: StopReason,
    pub total_tool_calls: u32,
    pub successful_tool_calls: u32,
    pub failed_tool_calls: u32,
    pub total_duration_ms: u64,
    /// The last message's content, cut to 500 bytes.
    pub final_content: Option<String>,
    pub error: Option<String>,
}

/// A failure of the agent loop.
#[derive(Debug)]
pub enum AgentError {
    LlmError(LlmError),
    StreamError(LlmError),
    ToolError(ToolExecError),
    Config(String),
}

/// The display text of an [`AgentError`].
pub open spec fn agent_error_text(e: AgentError) -> Seq<char> {
    match e {
        AgentError::LlmError(x) => "LLM error: "@ + llm_error_text(x),
        AgentError::StreamError(x) => "Stream error: "@ + llm_error_text(x),
        AgentError::ToolError(t) => "Tool error: "@ + tool_error_text(t),
        AgentError::Config(s) => "Config error: "@ + s@,
    }
}

impl AgentError {
    /// The human-readable message of this error.
    pub fn text(&self) -> (r: String)
        ensures
            r@ == agent_error_text(*self),
    {
        match self {
            AgentError::LlmError(x) => {
                let mut r = owned("LLM error: ");
                let m = x.message();
                r.append(m.as_str());
                r
            },
            AgentError::StreamError(x) => {
                let mut r = owned("Stream error: ");
                let m = x.message();
                r.append(m.as_str());
                r
            },
            AgentError::ToolError(t) => {
                let mut r = owned("Tool error: ");
                let m = t.text();
                r.append(m.as_str());
                r
            },
            AgentError::Config(s) => {
                let mut r = owned("Config error: ");
                r.append(s.as_str());
                r
            },
        }
    }

    /// An LLM error becomes an agent error.
    pub fn from_llm(e: LlmError) -> (r: AgentError)
        ensures
            r == AgentError::LlmError(e),
    {
        AgentError::LlmError(e)
    }

    /// A tool error becomes an agent error.
    pub fn from_tool(e: ToolExecError) -> (r: AgentError)
        ensures
            r == AgentError::ToolError(e),
    {
        AgentError::ToolError(e)
    }
}

// ---------------------------------------------------------------------------
// Stop rules and the final content
// ---------------------------------------------------------------------------

/// The stop rules, in order: the user aborted; the step limit is reached;
/// too many empty answers in a row; too many errors in a row.
pub open spec fn stop_rule(aborted: bool, steps: u32, empties: u32, errors: u32, c: AgentConfig) -> Option<StopReason> {
    if aborted {
        Some(StopReason::UserAbort)
    } else if steps >= c.max_steps {
        Some(StopReason::MaxStepsReached)
    } else if empties >= c.empty_response_threshold {
        Some(StopReason::EmptyResponseThreshold)
    } else if errors >= c.error_threshold {
        Some(StopReason::ErrorThreshold)
    } else {
        None
    }
}

/// A run goes on only while it is not aborted and under each of its limits:
/// an abort always stops it as such, and reaching the step limit always
/// stops it.
pub proof fn law_stop_rule(aborted: bool, steps: u32, empties: u32, errors: u32, c: AgentConfig)
    ensures
        aborted ==> stop_rule(aborted, steps, empties, errors, c) == Some(StopReason::UserAbort),
        steps >= c.max_steps ==> stop_rule(aborted, steps, empties, errors, c) is Some,
        stop_rule(aborted, steps, empties, errors, c) is None <==> (!aborted && steps < c.max_steps
            && empties < c.empty_response_threshold && errors < c.error_threshold),
{
}

/// The content shown at the end of a run: that of the last message, cut to
/// its first 500 bytes with `... (truncated)` when longer.
pub open spec fn final_content_text(content: Seq<char>) -> Seq<char> {
    if byte_len(content) > 500 {
        decode_utf8(encode_utf8(content).subrange(0, 500)) + "... (truncated)"@
    } else {
        content
    }
}

/// Whether the final content can be cut: the last message is short, or its
/// 500th byte ends a character.
pub open spec fn final_content_cuttable(messages: Seq<ChatMessage>) -> bool {
    messages.len() > 0 ==> {
        let c = messages.last().content@;
        byte_len(c) > 500 ==> is_char_boundary(encode_utf8(c), 500)
    }
}

/// The content shown at the end of a run (see [`final_content_text`]).
pub fn build_final_content(messages: &[ChatMessage]) -> (r: Option<String>)
    requires
        final_content_cuttable(messages@),
    ensures
        messages@.len() == 0 ==> r is None,
        messages@.len() > 0 ==> (r matches Some(s) && s@ == final_content_text(messages@.last().content@)),
{
    let n = messages.len();
    if n == 0 {
        return None;
    }
    let c = messages[n - 1].content.as_str();
    if c.len() > 500 {
        let (head, _) = c.split_at(500);
        let mut s = owned(head);
        s.append("... (truncated)");
        proof {
            broadcast use vstd::utf8::group_utf8_lib;

            assert(head@ == decode_utf8(encode_utf8(head@)));
            assert(encode_utf8(head@) == encode_utf8(c@).subrange(0, 500));
        }
        Some(s)
    } else {
        Some(owned(c))
    }
}

/// Whether [`build_final_content`] can cut the last message's content.
pub fn can_build_final_content(messages: &[ChatMessage]) -> (r: bool)
    ensures
        r == final_content_cuttable(messages@),
{
    let n = messages.len();
    if n == 0 {
        return true;
    }
    let c = messages[n - 1].content.as_str();
    c.len() <= 500 || c.is_char_boundary(500)
}

// ---------------------------------------------------------------------------
// The run
// ---------------------------------------------------------------------------

/// The arguments of a call as JSON text (`{}` should that fail).
pub open spec fn arguments_text(j: JsonModel) -> Seq<char> {
    match json_to_text(j) {
        Some(t) => t,
        None => "{}"@,
    }
}

/// The content of a tool's message: its result as JSON text, or `Error: `
/// and the error.
pub open spec fn tool_message_text(result: Result<JsonModel, ToolExecError>) -> Seq<char> {
    match result {
        Ok(j) => arguments_text(j),
        Err(e) => "Error: "@ + tool_error_text(e),
    }
}

/// The state of an agent run.
pub struct AgentRun {
    config: AgentConfig,
    messages: Vec<ChatMessage>,
    step_count: u32,
    empty_response_count: u32,
    error_count: u32,
    tool_call_total: u32,
    tool_call_success: u32,
    tool_call_failed: u32,
    text_buffer: String,
    current: Option<PendingToolCall>,
    tool_calls: Vec<FunctionCall>,
}

/// An [`AgentRun`] as plain data.
pub struct AgentView {
    pub config: AgentConfig,
    pub messages: Seq<ChatMessage>,
    pub steps: u32,
    pub empties: u32,
    pub errors: u32,
    pub total: u32,
    pub successes: u32,
    pub failures: u32,
    /// The text of the current answer.
    pub text: Seq<char>,
    /// The tool call of the current answer whose arguments are arriving.
    pub current: Option<PendingToolCall>,
    /// The finished tool calls of the current answer.
    pub calls: Seq<FunctionCall>,
}

impl View for AgentRun {
    type V = AgentView;

    closed spec fn view(&self) -> AgentView {
        AgentView {
            config: self.config,
            messages: self.messages@,
            steps: self.step_count,
            empties: self.empty_response_count,
            errors: self.error_count,
            total: self.tool_call_total,
            successes: self.tool_call_success,
            failures: self.tool_call_failed,
            text: self.text_buffer@,
            current: self.current,
            calls: self.tool_calls@,
        }
    }
}

/// Whether `f` is the finished form of the call `p` (see
/// [`call_arguments_lenient`]).
pub open spec fn finished_call(f: FunctionCall, p: PendingToolCall) -> bool {
    &&& f.id == p.id
    &&& f.name == p.name
    &&& json_view(f.arguments) == call_arguments_lenient(p.arguments@)
}

/// `calls` after the current call (if any) is finished.
pub open spec fn calls_after(calls: Seq<FunctionCall>, cur: Option<PendingToolCall>, next: Seq<FunctionCall>) -> bool {
    match cur {
        Some(p) => next.len() == calls.len() + 1 && next.drop_last() == calls && finished_call(next.last(), p),
        None => next == calls,
    }
}

/// Whether a tool call item of a message records `call`.
pub open spec fn item_matches(item: ToolCallItem, call: FunctionCall) -> bool {
    &&& item.id@ == call.id@
    &&& item.name@ == call.name@
    &&& item.arguments@ == arguments_text(json_view(call.arguments))
}

/// Whether `m` is the assistant message of an answer with this text and
/// these tool calls.
pub open spec fn is_answer_message(m: ChatMessage, text: Seq<char>, calls: Seq<FunctionCall>) -> bool {
    &&& m.role == Role::Assistant
    &&& m.content@ == text
    &&& m.tool_call_id is None
    &&& m.name is None
    &&& if calls.len() == 0 {
        m.tool_calls is None
    } else {
        m.tool_calls matches Some(items) && items@.len() == calls.len() && forall|i: int|
            0 <= i < calls.len() ==> #[trigger] item_matches(items@[i], calls[i])
    }
}

impl AgentRun {
    /// A run over the given conversation.
    pub fn new(config: AgentConfig, initial_messages: Vec<ChatMessage>) -> (r: (AgentRun, AgentStreamEvent))
        ensures
            r.0@.config == config,
            r.0@.messages == initial_messages@,
            r.0@.steps == 0,
            r.0@.empties == 0,
            r.0@.errors == 0,
            r.0@.total == 0,
            r.0@.successes == 0,
            r.0@.failures == 0,
            r.0@.text.len() == 0,
            r.0@.current is None,
            r.0@.calls.len() == 0,
            r.1 == (AgentStreamEvent::AgentStart { step: 0 }),
    {
        let run = AgentRun {
            config,
            messages: initial_messages,
            step_count: 0,
            empty_response_count: 0,
            error_count: 0,
            tool_call_total: 0,
            tool_call_success: 0,
            tool_call_failed: 0,
            text_buffer: String::new(),
            current: None,
            tool_calls: Vec::new(),
        };
        (run, AgentStreamEvent::AgentStart { step: 0 })
    }

    /// The conversation so far.
    pub fn messages(&self) -> (r: &[ChatMessage])
        ensures
            r@ == self@.messages,
    {
        self.messages.as_slice()
    }

    /// Whether a stop rule holds (see [`stop_rule`]).
    pub fn should_stop(&self, aborted: bool) -> (r: Option<StopReason>)
        ensures
            r == stop_rule(aborted, self@.steps, self@.empties, self@.errors, self@.config),
    {
        if aborted {
            return Some(StopReason::UserAbort);
        }
        if self.step_count >= self.config.max_steps {
            return Some(StopReason::MaxStepsReached);
        }
        if self.empty_response_count >= self.config.empty_response_threshold {
            return Some(StopReason::EmptyResponseThreshold);
        }
        if self.error_count >= self.config.error_threshold {
            return Some(StopReason::ErrorThreshold);
        }
        None
    }

    /// What ends the run before the next step, if anything: a stop rule, or
    /// else the total time running out.
    pub fn check_stop(&self, aborted: bool, timed_out: bool) -> (r: Option<StopReason>)
        ensures
            r == (match stop_rule(aborted, self@.steps, self@.empties, self@.errors, self@.config) {
                Some(x) => Some(x),
                None => if timed_out {
                    Some(StopReason::TimeoutReached)
                } else {
                    None
                },
            }),
    {
        match self.should_stop(aborted) {
            Some(x) => Some(x),
            None => if timed_out {
                Some(StopReason::TimeoutReached)
            } else {
                None
            },
        }
    }

    /// Whether the final content can be built (see [`final_content_cuttable`]).
    pub fn can_complete(&self) -> (r: bool)
        ensures
            r == final_content_cuttable(self@.messages),
    {
        can_build_final_content(self.messages.as_slice())
    }

    /// Ends the run for `stop_reason`: the completion event and the summary.
    pub fn complete(&self, stop_reason: StopReason, duration_ms: u64) -> (r: (AgentStreamEvent, AgentResultSummary))
        requires
            final_content_cuttable(self@.messages),
        ensures
            r.0 matches AgentStreamEvent::AgentComplete { total_steps, stop_reason: s, final_content } && total_steps
                == self@.steps && s == stop_reason && (match final_content {
                Some(c) => self@.messages.len() > 0 && c@ == final_content_text(self@.messages.last().content@),
                None => self@.messages.len() == 0,
            }),
            r.1.total_steps == self@.steps,
            r.1.stop_reason == stop_reason,
            r.1.total_tool_calls == self@.total,
            r.1.successful_tool_calls == self@.successes,
            r.1.failed_tool_calls == self@.failures,
            r.1.total_duration_ms == duration_ms,
            match r.1.final_content {
                Some(c) => self@.messages.len() > 0 && c@ == final_content_text(self@.messages.last().content@),
                None => self@.messages.len() == 0,
            },
            r.1.error is None,
    {
        let ev = AgentStreamEvent::AgentComplete {
            total_steps: self.step_count,
            stop_reason,
            final_content: build_final_content(self.messages.as_slice()),
        };
        let summary = AgentResultSummary {
            total_steps: self.step_count,
            stop_reason,
            total_tool_calls: self.tool_call_total,
            successful_tool_calls: self.tool_call_success,
            failed_tool_calls: self.tool_call_failed,
            total_duration_ms: duration_ms,
            final_content: build_final_content(self.messages.as_slice()),
            error: None,
        };
        (ev, summary)
    }

    /// Starts a step: the step count goes up and the answer buffer is empty.
    pub fn begin_step(&mut self) -> (r: AgentStreamEvent)
        requires
            old(self)@.steps < old(self)@.config.max_steps,
        ensures
            final(self)@ == (AgentView {
                steps: (old(self)@.steps + 1) as u32,
                text: Seq::empty(),
                current: None,
                calls: Seq::empty(),
                ..old(self)@
            }),
            r == (AgentStreamEvent::StepStart { step: final(self)@.steps }),
    {
        self.step_count = self.step_count + 1;
        self.text_buffer = String::new();
        self.current = None;
        self.tool_calls = Vec::new();
        assert(self@.calls =~= Seq::<FunctionCall>::empty());
        AgentStreamEvent::StepStart { step: self.step_count }
    }

    /// The model could not be called: one more error, an error event, and
    /// the error that ends the run.
    pub fn llm_failed(&mut self, e: LlmError) -> (r: (AgentStreamEvent, AgentError))
        ensures
            final(self)@ == (AgentView { errors: old(self)@.errors.wrapping_add(1), ..old(self)@ }),
            r.0 matches AgentStreamEvent::Llm(LlmStreamEvent::Error { code, message }) && code@ == "llm_error"@ && message@
                == llm_error_text(e),
            r.1 == AgentError::LlmError(e),
    {
        self.error_count = self.error_count.wrapping_add(1);
        let message = e.message();
        (AgentStreamEvent::Llm(LlmStreamEvent::Error { code: owned("llm_error"), message }), AgentError::LlmError(e))
    }

    /// The answer broke off: one more error, and the error that ends the run.
    pub fn stream_failed(&mut self, e: LlmError) -> (r: AgentError)
        ensures
            final(self)@ == (AgentView { errors: old(self)@.errors.wrapping_add(1), ..old(self)@ }),
            r == AgentError::StreamError(e),
    {
        self.error_count = self.error_count.wrapping_add(1);
        AgentError::StreamError(e)
    }

    fn finish_current(&mut self)
        ensures
            calls_after(old(self)@.calls, old(self)@.current, final(self)@.calls),
            final(self)@ == (AgentView { calls: final(self)@.calls, current: None, ..old(self)@ }),
    {
        let cur = self.current.take();
        match cur {
            Some(p) => {
                let f = p.finalize_call();
                let ghost before = self.tool_calls@;
                self.tool_calls.push(f);
                assert(self.tool_calls@.drop_last() =~= before);
            },
            None => {},
        }
    }

    /// Reads one event of the model's answer: text is collected, tool calls
    /// are assembled (a new call finishes the previous one); `Done` ends the
    /// answer (`false`); other events change nothing.
    pub fn on_stream_event(&mut self, event: LlmStreamEvent) -> (r: bool)
        ensures
            ({
                let v = old(self)@;
                let w = final(self)@;
                match event {
                    LlmStreamEvent::TextDelta { text } => r && w == AgentView { text: v.text + text@, ..v },
                    LlmStreamEvent::ToolCallStart { index, id, name } => {
                        &&& r
                        &&& calls_after(v.calls, v.current, w.calls)
                        &&& w.current matches Some(p) && p.index == index && p.id == id && p.name == name && p.arguments@.len() == 0
                        &&& w == AgentView { calls: w.calls, current: w.current, ..v }
                    },
                    LlmStreamEvent::ToolCallDelta { arguments, .. } => {
                        &&& r
                        &&& w == AgentView { current: w.current, ..v }
                        &&& match v.current {
                            Some(p) => w.current matches Some(q) && q.index == p.index && q.id == p.id && q.name == p.name
                                && q.arguments@ == p.arguments@ + arguments@,
                            None => w.current is None,
                        }
                    },
                    LlmStreamEvent::ToolCallDone { arguments, .. } => {
                        &&& r
                        &&& w == AgentView { current: w.current, ..v }
                        &&& match v.current {
                            Some(p) => w.current matches Some(q) && q.index == p.index && q.id == p.id && q.name == p.name
                                && q.arguments@ == p.arguments@ + match json_to_text(json_view(arguments)) {
                                Some(t) => t,
                                None => Seq::<char>::empty(),
                            },
                            None => w.current is None,
                        }
                    },
                    LlmStreamEvent::Done => !r && w == v,
                    _ => r && w == v,
                }
            }),
    {
        match event {
            LlmStreamEvent::TextDelta { text } => {
                self.text_buffer.append(text.as_str());
                true
            },
            LlmStreamEvent::ToolCallStart { index, id, name } => {
                self.finish_current();
                self.current = Some(PendingToolCall::new(index, id, name));
                true
            },
            LlmStreamEvent::ToolCallDelta { arguments, .. } => {
                match &mut self.current {
                    Some(p) => p.push_arguments(arguments.as_str()),
                    None => {},
                }
                true
            },
            LlmStreamEvent::ToolCallDone { arguments, .. } => {
                match &mut self.current {
                    Some(p) => match json_to_string(&arguments) {
                        Some(t) => p.push_arguments(t.as_str()),
                        None => {},
                    },
                    None => {},
                }
                true
            },
            LlmStreamEvent::Done => false,
            _ => true,
        }
    }

    /// Ends the model's answer: the last call is finished; an answer with
    /// neither text nor calls counts as empty (else the empty count starts
    /// over); an answer with either joins the conversation as an assistant
    /// message. Returns the calls to run, in order.
    pub fn end_answer(&mut self) -> (r: Vec<FunctionCall>)
        ensures
            ({
                let v = old(self)@;
                let w = final(self)@;
                &&& calls_after(v.calls, v.current, r@)
                &&& w.current is None
                &&& w.calls.len() == 0
                &&& w.empties == (if v.text.len() == 0 && r@.len() == 0 {
                    v.empties.wrapping_add(1)
                } else {
                    0
                })
                &&& if v.text.len() == 0 && r@.len() == 0 {
                    w.messages == v.messages
                } else {
                    w.messages.len() == v.messages.len() + 1 && w.messages.drop_last() == v.messages && is_answer_message(
                        w.messages.last(),
                        v.text,
                        r@,
                    )
                }
                &&& w == AgentView { messages: w.messages, empties: w.empties, current: None, calls: w.calls, ..v }
            }),
    {
        self.finish_current();
        let mut calls: Vec<FunctionCall> = Vec::new();
        std::mem::swap(&mut calls, &mut self.tool_calls);
        let empty_text = self.text_buffer.as_str().is_empty();
        if empty_text && calls.len() == 0 {
            self.empty_response_count = self.empty_response_count.wrapping_add(1);
        } else {
            self.empty_response_count = 0;
        }
        if !empty_text || calls.len() > 0 {
            let mut items: Vec<ToolCallItem> = Vec::new();
            let mut i: usize = 0;
            while i < calls.len()
                invariant
                    i <= calls@.len(),
                    items@.len() == i,
                    forall|k: int| 0 <= k < i ==> #[trigger] item_matches(items@[k], calls@[k]),
                decreases calls.len() - i,
            {
                let c = &calls[i];
                let arguments = match json_to_string(&c.arguments) {
                    Some(t) => t,
                    None => owned("{}"),
                };
                let ghost old_items = items@;
                let item = ToolCallItem { id: owned(c.id.as_str()), name: owned(c.name.as_str()), arguments };
                assert(item_matches(item, calls@[i as int]));
                items.push(item);
                proof {
                    assert forall|k: int| 0 <= k < i + 1 implies #[trigger] item_matches(items@[k], calls@[k]) by {
                        if k < i {
                            assert(items@[k] == old_items[k]);
                        }
                    }
                }
                i += 1;
            }
            let tool_calls = if items.len() == 0 {
                None
            } else {
                Some(items)
            };
            let msg = ChatMessage {
                role: Role::Assistant,
                content: owned(self.text_buffer.as_str()),
                tool_call_id: None,
                name: None,
                tool_calls,
            };
            let ghost before = self.messages@;
            self.messages.push(msg);
            assert(self.messages@.drop_last() =~= before);
        }
        calls
    }

    /// The event that a tool starts, with its arguments as JSON text
    /// (empty should that fail).
    pub fn tool_started(&self, call: &FunctionCall) -> (r: AgentStreamEvent)
        ensures
            r matches AgentStreamEvent::ToolStart { call_id, name, arguments } && call_id@ == call.id@ && name@ == call.name@
                && arguments == Some(arguments.unwrap()) && arguments.unwrap()@ == match json_to_text(json_view(call.arguments)) {
                Some(t) => t,
                None => Seq::<char>::empty(),
            },
    {
        let arguments = match json_to_string(&call.arguments) {
            Some(t) => t,
            None => String::new(),
        };
        AgentStreamEvent::ToolStart { call_id: owned(call.id.as_str()), name: owned(call.name.as_str()), arguments: Some(arguments) }
    }

    /// Records the outcome of a tool call: the success or failure count goes
    /// up, the result (or the error) joins the conversation as the tool's
    /// message, and the event reports it.
    pub fn tool_finished(&mut self, call: &FunctionCall, result: Result<Value, ToolExecError>, duration_ms: u64) -> (r: AgentStreamEvent)
        ensures
            ({
                let v = old(self)@;
                let w = final(self)@;
                let rv = match result {
                    Ok(x) => Ok(json_view(x)),
                    Err(e) => Err(e),
                };
                &&& w.messages.len() == v.messages.len() + 1
                &&& w.messages.drop_last() == v.messages
                &&& w.messages.last().role == Role::Tool
                &&& w.messages.last().content@ == tool_message_text(rv)
                &&& w.messages.last().tool_call_id matches Some(i) && i@ == call.id@
                &&& w.messages.last().name matches Some(n) && n@ == call.name@
                &&& w.messages.last().tool_calls is None
                &&& match result {
                    Ok(_) => {
                        &&& w == AgentView { messages: w.messages, successes: v.successes.wrapping_add(1), ..v }
                        &&& r matches AgentStreamEvent::ToolComplete { call_id, name, duration_ms: d, success } && call_id@
                            == call.id@ && name@ == call.name@ && d == duration_ms && success
                    },
                    Err(e) => {
                        &&& w == AgentView { messages: w.messages, failures: v.failures.wrapping_add(1), ..v }
                        &&& r matches AgentStreamEvent::ToolError { call_id, name, error } && call_id@ == call.id@ && name@
                            == call.name@ && error@ == tool_error_text(e)
                    },
                }
            }),
    {
        let (ev, content) = match &result {
            Ok(v) => {
                self.tool_call_success = self.tool_call_success.wrapping_add(1);
                let content = match json_to_string(v) {
                    Some(t) => t,
                    None => owned("{}"),
                };
                (AgentStreamEvent::ToolComplete { call_id: owned(call.id.as_str()), name: owned(call.name.as_str()), duration_ms, success: true }, content)
            },
            Err(e) => {
                self.tool_call_failed = self.tool_call_failed.wrapping_add(1);
                let t = e.text();
                let mut content = owned("Error: ");
                content.append(t.as_str());
                (AgentStreamEvent::ToolError { call_id: owned(call.id.as_str()), name: owned(call.name.as_str()), error: t }, content)
            },
        };
        let msg = ChatMessage::tool_result(call.id.as_str(), call.name.as_str(), content.as_str());
        let ghost before = self.messages@;
        self.messages.push(msg);
        assert(self.messages@.drop_last() =~= before);
        ev
    }

    /// Ends a step that made `tool_call_count` calls.
    pub fn end_step(&mut self, tool_call_count: u32) -> (r: AgentStreamEvent)
        ensures
            final(self)@ == (AgentView { total: old(self)@.total.wrapping_add(tool_call_count), ..old(self)@ }),
            r == (AgentStreamEvent::StepComplete {
                step: old(self)@.steps,
                had_tool_call: tool_call_count > 0,
                tool_call_count,
            }),
    {
        self.tool_call_total = self.tool_call_total.wrapping_add(tool_call_count);
        AgentStreamEvent::StepComplete { step: self.step_count, had_tool_call: tool_call_count > 0, tool_call_count }
    }

    /// Counts an empty answer.
    pub fn record_empty_response(&mut self)
        ensures
            final(self)@ == (AgentView { empties: old(self)@.empties.wrapping_add(1), ..old(self)@ }),
    {
        self.empty_response_count = self.empty_response_count.wrapping_add(1);
    }

    /// Counts an error.
    pub fn record_error(&mut self)
        ensures
            final(self)@ == (AgentView { errors: old(self)@.errors.wrapping_add(1), ..old(self)@ }),
    {
        self.error_count = self.error_count.wrapping_add(1);
    }

    /// A success clears the empty and error counts.
    pub fn record_success(&mut self)
        ensures
            final(self)@ == (AgentView { empties: 0, errors: 0, ..old(self)@ }),
    {
        self.empty_response_count = 0;
        self.error_count = 0;
    }

    /// Counts a successful tool call.
    pub fn record_tool_success(&mut self)
        ensures
            final(self)@ == (AgentView { successes: old(self)@.successes.wrapping_add(1), ..old(self)@ }),
    {
        self.tool_call_success = self.tool_call_success.wrapping_add(1);
    }

    /// Counts a failed tool call.
    pub fn record_tool_failure(&mut self)
        ensures
            final(self)@ == (AgentView { failures: old(self)@.failures.wrapping_add(1), ..old(self)@ }),
    {
        self.tool_call_failed = self.tool_call_failed.wrapping_add(1);
    }
}

} // verus!
