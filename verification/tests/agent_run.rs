use agent_provider::decision::{LlmDecision, StepAction};
use agent_provider::tool_batch::parse_tool_arguments;
use agent_provider::llm_event::LlmChunkEnvelope;
use agent_provider::llm_tool::FnToolExecutor;
use agent_provider::agent::{build_final_content, AgentError, AgentRun, AgentStreamEvent, StopReason};
use agent_provider::agent_config::AgentConfig;
use agent_provider::error::{LlmError, ToolExecError};
use agent_provider::llm_event::{parse_arguments, LlmStreamEvent, PendingToolCall};
use agent_provider::tool_batch::{BlockSender, ToolBatch, ToolExecContext};
use agent_provider::types::{ChatMessage, Role};
use serde_json::Value;

fn json(text: &str) -> Value {
    serde_json::from_str(text).unwrap()
}

fn start(index: u32, id: &str, name: &str) -> LlmStreamEvent {
    LlmStreamEvent::ToolCallStart { index, id: id.to_string(), name: name.to_string() }
}

fn delta(index: u32, arguments: &str) -> LlmStreamEvent {
    LlmStreamEvent::ToolCallDelta { index, arguments: arguments.to_string() }
}

#[test]
fn parse_arguments_falls_back_to_empty_object() {
    assert_eq!(parse_arguments(""), json("{}"));
    assert_eq!(parse_arguments("not json"), json("{}"));
    assert_eq!(parse_arguments("{\"a\": [1, 2]}"), json("{\"a\":[1,2]}"));
}

#[test]
fn pending_call_collects_and_canonicalizes() {
    let mut p = PendingToolCall::new(0, "c1".to_string(), "mcp__a__b".to_string());
    p.push_arguments("{ \"q\" :");
    p.push_arguments(" \"x\" }");
    p.canonicalize();
    assert_eq!(p.arguments, "{\"q\":\"x\"}");
    let rec = p.finalize();
    assert_eq!(rec.call_id, "c1");
    assert_eq!(rec.arguments, json("{\"q\":\"x\"}"));
    assert!(rec.result.is_none());
    assert!(!rec.success);

    let mut broken = PendingToolCall::new(1, "c2".to_string(), "t".to_string());
    broken.push_arguments("{\"q\":");
    broken.canonicalize();
    assert_eq!(broken.arguments, "{\"q\":");
    assert_eq!(broken.finalize_call().arguments, json("{}"));

    let mut padded = PendingToolCall::new(2, "c3".to_string(), "t".to_string());
    padded.push_arguments("  {\"k\":1}  ");
    assert_eq!(padded.finalize_call().arguments, json("{\"k\":1}"));
}

#[test]
fn block_sender_numbers_new_blocks() {
    let mut b = BlockSender::new();
    assert_eq!(b.peek_order_num(), 1);
    assert_eq!(b.send("text"), Some(1));
    assert_eq!(b.send("text"), None);
    assert_eq!(b.current_type(), Some("text"));
    assert_eq!(b.send("tool"), Some(2));
    assert_eq!(b.send("text"), Some(3));
    assert_eq!(b.peek_order_num(), 4);
}

#[test]
fn tool_exec_context_counts() {
    let mut c = ToolExecContext::new();
    assert!(!c.had_tool_call);
    c.record_call(true);
    c.record_call(false);
    c.record_call(true);
    assert!(c.had_tool_call);
    assert_eq!((c.total_calls, c.successful_calls, c.failed_calls), (3, 2, 1));
    let d = ToolExecContext::default();
    assert_eq!(d.total_calls, 0);
}

#[test]
fn tool_batch_round() {
    let (mut batch, first) = ToolBatch::new();
    assert!(matches!(first, LlmStreamEvent::BlockStart { ref block_type, order_num: 1 } if block_type == "text"));
    let (go, out) = batch.on_event(LlmStreamEvent::TextDelta { text: "hi ".to_string() });
    assert!(go);
    assert_eq!(out.len(), 1);
    let (_, out) = batch.on_event(start(0, "a", "mcp__s__one"));
    assert_eq!(out.len(), 2);
    assert!(matches!(out[0], LlmStreamEvent::BlockStart { ref block_type, order_num: 2 } if block_type == "tool"));
    batch.on_event(delta(0, "{\"x\":"));
    batch.on_event(delta(0, "1}"));
    let (_, out) = batch.on_event(start(1, "b", "mcp__s__two"));
    assert_eq!(out.len(), 1);
    batch.on_event(delta(1, "oops"));
    let (go, out) = batch.on_event(LlmStreamEvent::Done);
    assert!(!go);
    assert!(out.is_empty());
    let (calls, ev) = batch.finish_stream();
    assert!(ev.is_none());
    assert_eq!(calls.len(), 2);
    assert_eq!(calls[0].arguments, json("{\"x\":1}"));
    assert_eq!(calls[1].arguments, json("{}"));
    let mut it = calls.into_iter();
    let ev = batch.record_result(it.next().unwrap(), Ok(json("\"done\"")));
    assert!(matches!(ev, LlmStreamEvent::ToolResult { success: true, .. }));
    let ev = batch.record_result(
        it.next().unwrap(),
        Err(ToolExecError { name: "mcp__s__two".to_string(), message: "bad".to_string() }),
    );
    match ev {
        LlmStreamEvent::ToolResult { call_id, result, success, .. } => {
            assert_eq!(call_id, "b");
            assert!(!success);
            assert_eq!(result, Value::String("Tool 'mcp__s__two' execution failed: bad".to_string()));
        }
        other => panic!("unexpected {:?}", other),
    }
    let result = batch.finish();
    assert_eq!(result.text, "hi ");
    assert_eq!(result.tool_calls.len(), 2);
    assert!(result.tool_calls[0].success);
    assert!(!result.tool_calls[1].success);
}

#[test]
fn tool_batch_without_executor() {
    let (mut batch, _) = ToolBatch::new();
    batch.on_event(start(0, "a", "t"));
    let (calls, _) = batch.finish_stream();
    let ev = batch.record_unexecuted(calls.into_iter().next().unwrap());
    match ev {
        LlmStreamEvent::ToolResult { result, success, .. } => {
            assert!(!success);
            assert_eq!(result, Value::String("No executor available".to_string()));
        }
        other => panic!("unexpected {:?}", other),
    }
}

#[test]
fn agent_stop_rules() {
    let config = AgentConfig::new().with_max_steps(1).with_empty_threshold(1);
    let (mut run, ev) = AgentRun::new(config, vec![ChatMessage::new(Role::User, "hi")]);
    assert!(matches!(ev, AgentStreamEvent::AgentStart { step: 0 }));
    assert_eq!(run.should_stop(true), Some(StopReason::UserAbort));
    assert_eq!(run.should_stop(false), None);
    assert_eq!(run.check_stop(false, true), Some(StopReason::TimeoutReached));
    run.begin_step();
    assert_eq!(run.should_stop(false), Some(StopReason::MaxStepsReached));
    assert_eq!(StopReason::MaxStepsReached.name(), "max_steps_reached");
}

#[test]
fn agent_empty_answer_counts() {
    let config = AgentConfig::new().with_empty_threshold(2);
    let (mut run, _) = AgentRun::new(config, vec![ChatMessage::new(Role::User, "hi")]);
    run.begin_step();
    assert!(!run.on_stream_event(LlmStreamEvent::Done));
    assert!(run.end_answer().is_empty());
    assert_eq!(run.messages().len(), 1);
    run.begin_step();
    run.end_answer();
    assert_eq!(run.should_stop(false), Some(StopReason::EmptyResponseThreshold));
}

#[test]
fn agent_step_with_tool_call() {
    let (mut run, _) = AgentRun::new(AgentConfig::new(), vec![ChatMessage::new(Role::User, "find")]);
    let ev = run.begin_step();
    assert!(matches!(ev, AgentStreamEvent::StepStart { step: 1 }));
    run.on_stream_event(LlmStreamEvent::TextDelta { text: "looking".to_string() });
    run.on_stream_event(start(0, "call_1", "mcp__web__search"));
    run.on_stream_event(delta(0, "{\"q\":\"rust\"}"));
    let calls = run.end_answer();
    assert_eq!(calls.len(), 1);
    assert_eq!(calls[0].arguments, json("{\"q\":\"rust\"}"));
    let last = run.messages().last().unwrap();
    assert_eq!(last.role, Role::Assistant);
    assert_eq!(last.content, "looking");
    assert_eq!(last.tool_calls.as_ref().map(|c| c.len()), Some(1));
    match run.tool_started(&calls[0]) {
        AgentStreamEvent::ToolStart { call_id, arguments, .. } => {
            assert_eq!(call_id, "call_1");
            assert_eq!(arguments.as_deref(), Some("{\"q\":\"rust\"}"));
        }
        other => panic!("unexpected {:?}", other),
    }
    let ev = run.tool_finished(&calls[0], Ok(json("{\"hits\":3}")), 12);
    assert!(matches!(ev, AgentStreamEvent::ToolComplete { duration_ms: 12, success: true, .. }));
    let tool_msg = run.messages().last().unwrap();
    assert_eq!(tool_msg.role, Role::Tool);
    assert_eq!(tool_msg.content, "{\"hits\":3}");
    assert_eq!(tool_msg.tool_call_id.as_deref(), Some("call_1"));
    let err = ToolExecError { name: "mcp__web__search".to_string(), message: "down".to_string() };
    let ev = run.tool_finished(&calls[0], Err(err), 3);
    match ev {
        AgentStreamEvent::ToolError { error, .. } => assert_eq!(error, "Tool 'mcp__web__search' execution failed: down"),
        other => panic!("unexpected {:?}", other),
    }
    assert_eq!(run.messages().last().unwrap().content, "Error: Tool 'mcp__web__search' execution failed: down");
    let ev = run.end_step(1);
    assert!(matches!(ev, AgentStreamEvent::StepComplete { step: 1, had_tool_call: true, tool_call_count: 1 }));
    assert!(run.can_complete());
    let (ev, summary) = run.complete(StopReason::Normal, 40);
    assert!(matches!(ev, AgentStreamEvent::AgentComplete { total_steps: 1, .. }));
    assert_eq!(summary.total_tool_calls, 1);
    assert_eq!(summary.successful_tool_calls, 1);
    assert_eq!(summary.failed_tool_calls, 1);
    assert_eq!(summary.total_duration_ms, 40);
    assert_eq!(summary.final_content.as_deref(), Some("Error: Tool 'mcp__web__search' execution failed: down"));
}

#[test]
fn final_content_is_cut_at_500_bytes() {
    assert_eq!(build_final_content(&[]), None);
    let long = "a".repeat(600);
    let msgs = vec![ChatMessage::new(Role::Assistant, &long)];
    assert_eq!(build_final_content(&msgs), Some(format!("{}... (truncated)", "a".repeat(500))));
    let short = vec![ChatMessage::new(Role::Assistant, "short")];
    assert_eq!(build_final_content(&short), Some("short".to_string()));
}

#[test]
fn agent_error_texts() {
    assert_eq!(AgentError::from_llm(LlmError::Timeout).text(), "LLM error: request timeout after 30 seconds");
    assert_eq!(
        AgentError::StreamError(LlmError::HttpStatus { status: 500, body: "x".to_string() }).text(),
        "Stream error: HTTP status 500: x"
    );
    let t = ToolExecError { name: "n".to_string(), message: "m".to_string() };
    assert_eq!(AgentError::from_tool(t).text(), "Tool error: Tool 'n' execution failed: m");
    assert_eq!(AgentError::Config("c".to_string()).text(), "Config error: c");
    let (mut run, _) = AgentRun::new(AgentConfig::new(), Vec::new());
    let (ev, err) = run.llm_failed(LlmError::EmptyResponse);
    match ev {
        AgentStreamEvent::Llm(LlmStreamEvent::Error { code, message }) => {
            assert_eq!(code, "llm_error");
            assert_eq!(message, "stream ended without assistant content");
        }
        other => panic!("unexpected {:?}", other),
    }
    assert!(matches!(err, AgentError::LlmError(LlmError::EmptyResponse)));
}

#[test]
fn step_decisions() {
    let d = LlmDecision::skip("无结果");
    assert_eq!(d.analysis, "跳过当前步骤: 无结果");
    assert!(matches!(d.action, StepAction::Skip { ref reason } if reason == "无结果"));
    let d = LlmDecision::change_tool("mcp__a__b", json("{\"k\":1}"), "更好");
    assert_eq!(d.analysis, "更换工具: 更好");
    assert!(matches!(d.action, StepAction::ChangeTool { ref tool_name, .. } if tool_name == "mcp__a__b"));
    let d = LlmDecision::abort("停");
    assert_eq!(d.analysis, "中止执行: 停");
    let d = LlmDecision::retry("again", None);
    assert_eq!(d.analysis, "again");
    assert!(matches!(d.action, StepAction::Retry { new_parameters: None }));
}

#[test]
fn tool_arguments_as_map() {
    let m = parse_tool_arguments(json("{\"a\":1,\"b\":\"x\"}"));
    assert_eq!(m.len(), 2);
    assert_eq!(m.get("b"), Some(&json("\"x\"")));
    assert!(parse_tool_arguments(json("[1,2]")).is_empty());
    assert!(parse_tool_arguments(json("\"s\"")).is_empty());
}

#[test]
fn chunk_envelope_and_executor() {
    let e = LlmChunkEnvelope::new("acct", LlmStreamEvent::Done);
    assert_eq!(e.account_id, "acct");
    assert!(matches!(e.event, LlmStreamEvent::Done));
    let exec = FnToolExecutor::new(|n: u32| n + 1);
    assert_eq!((exec.executor())(1), 2);
}
