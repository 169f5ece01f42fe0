use agent_provider::error::ToolExecError;
use agent_provider::message_context::MessageContext;
use agent_provider::plan_executor::{observe, sort_steps, Advance, PlanRun, PlanSettings};
use agent_provider::plan_types::{ObserveDecision, PlanError, PlanStopReason, PlanStreamEvent, StepExecResult};
use agent_provider::plans::PlanStep;
use agent_provider::step_context::{collect_dependency_outputs, StepContext};
use agent_provider::step_exec::{
    deterministic_call, deterministic_result, missing_provider, reasoning_result, replan_summary, step_precheck,
    tool_output_text,
};
use agent_provider::types::{StepType, ToolDefinition};
use serde_json::Value;

fn json(text: &str) -> Value {
    serde_json::from_str(text).unwrap()
}

fn done(step: &PlanStep, output: &str) -> StepExecResult {
    StepExecResult { step: deterministic_result(step, output.to_string()), duration_ms: 7 }
}

#[test]
fn sort_steps_orders_by_order_and_keeps_ties() {
    let steps = vec![
        PlanStep::new(3, "mcp__a__c", "third"),
        PlanStep::new(1, "mcp__a__a", "first"),
        PlanStep::new(2, "mcp__a__b", "second"),
        PlanStep::new(1, "mcp__a__x", "first again"),
    ];
    let sorted = sort_steps(steps);
    let goals: Vec<&str> = sorted.iter().map(|s| s.step_goal.as_str()).collect();
    assert_eq!(goals, vec!["first", "first again", "second", "third"]);
}

#[test]
fn observe_success_reports_output_bytes() {
    let step = PlanStep::new(1, "mcp__a__b", "goal");
    let ok: Result<StepExecResult, PlanError> = Ok(done(&step, "你好ab"));
    let obs = observe(1, &ok, 0, 2, true);
    assert!(obs.success);
    assert_eq!(obs.step_order, 1);
    assert_eq!(obs.summary, "输出长度: 8 字符");
    assert_eq!(obs.decision, ObserveDecision::ContinueNext);
}

#[test]
fn observe_empty_output_retries_then_skips() {
    let step = PlanStep::new(2, "mcp__a__b", "goal");
    let empty: Result<StepExecResult, PlanError> = Ok(done(&step, ""));
    let first = observe(2, &empty, 0, 2, true);
    assert!(!first.success);
    assert_eq!(first.summary, "步骤执行完毕但输出为空");
    assert_eq!(first.decision, ObserveDecision::RetryCurrent);
    let last = observe(2, &empty, 2, 2, true);
    assert_eq!(
        last.decision,
        ObserveDecision::SkipStep { reason: "步骤输出为空且重试次数已耗尽".to_string() }
    );
}

#[test]
fn observe_error_retries_then_replans_or_skips() {
    let err: Result<StepExecResult, PlanError> = Err(PlanError::ToolNotFound("mcp__x__y".to_string()));
    let retry = observe(1, &err, 1, 2, true);
    assert_eq!(retry.decision, ObserveDecision::RetryCurrent);
    assert_eq!(retry.summary, "Tool not found: mcp__x__y");
    let replan = observe(1, &err, 2, 2, true);
    assert_eq!(replan.decision, ObserveDecision::ReplanRequired { reason: "Tool not found: mcp__x__y".to_string() });
    let skip = observe(1, &err, 2, 2, false);
    assert_eq!(skip.decision, ObserveDecision::SkipStep { reason: "Tool not found: mcp__x__y".to_string() });
}

#[test]
fn plan_error_texts() {
    let tool = PlanError::from_tool_error(ToolExecError { name: "t".to_string(), message: "boom".to_string() });
    assert_eq!(tool.text(), "Tool error: Tool 't' execution failed: boom");
    assert_eq!(PlanError::DependencyNotFound(3).text(), "Dependency step 3 not found");
    assert_eq!(PlanError::Aborted.text(), "Execution aborted by user");
    match PlanError::tool("n", "m".to_string()) {
        PlanError::ToolError(e) => {
            assert_eq!(e.name, "n");
            assert_eq!(e.message, "m");
        }
        other => panic!("unexpected {:?}", other),
    }
}

#[test]
fn plan_settings_defaults_and_builders() {
    let s = PlanSettings::new();
    assert_eq!((s.max_steps, s.max_retries, s.max_exploratory_calls), (50, 2, 5));
    assert!(s.model.is_empty());
    let tools = vec![ToolDefinition::from_mcp("mcp__a__b", None, json("{}"))];
    let s = s.with_model("m").with_available_tools(&tools).with_max_steps(3).with_max_retries(1).with_max_exploratory_calls(9);
    assert_eq!(s.model, "m");
    assert_eq!(s.tool_names, vec!["mcp__a__b".to_string()]);
    assert_eq!((s.max_steps, s.max_retries, s.max_exploratory_calls), (3, 1, 9));
    assert!(s.tool_exists("mcp__a__b"));
    assert!(!s.tool_exists("mcp__a__c"));
    assert!(PlanSettings::new().tool_exists("anything"));
}

#[test]
fn empty_plan_finishes_at_once() {
    let (run, events) = PlanRun::start(Vec::new(), &PlanSettings::new(), false);
    assert!(events.is_empty());
    assert!(run.is_finished());
    let msg = MessageContext::new("sys");
    let (result, events, lines) = run.finish(&msg);
    assert_eq!(result.completed_steps, 0);
    assert_eq!(result.total_steps, 0);
    assert_eq!(result.stop_reason, PlanStopReason::Completed);
    assert!(events.is_empty());
    assert!(lines.is_empty());
}

#[test]
fn two_step_plan_runs_to_completion() {
    let steps = vec![
        PlanStep::new(2, "mcp__a__second", "second goal").with_dependency(1),
        PlanStep::new(1, "mcp__a__first", "first goal"),
    ];
    let mut msg = MessageContext::new("sys");
    let (mut run, events) = PlanRun::start(steps, &PlanSettings::new(), false);
    assert_eq!(events.len(), 1);
    assert!(matches!(events[0], PlanStreamEvent::PlanStart { total_steps: 2, .. }));

    let (adv, _) = run.advance(false, &mut msg);
    assert_eq!(adv, Advance::Execute);
    assert_eq!(run.current_step().order, 1);
    let call = deterministic_call(run.current_step(), run.context()).unwrap();
    assert_eq!(call.name, "mcp__a__first");
    assert_eq!(call.id, "plan_step_1");
    let outcome = Ok(done(run.current_step(), "page one"));
    let (obs, _) = run.record_outcome(outcome, &mut msg);
    assert_eq!(obs.decision, ObserveDecision::ContinueNext);

    let (adv, _) = run.advance(false, &mut msg);
    assert_eq!(adv, Advance::Execute);
    assert_eq!(run.current_step().order, 2);
    let call = deterministic_call(run.current_step(), run.context()).unwrap();
    assert_eq!(call.arguments.get("__prev_step_1_output").and_then(|v| v.as_str()), Some("page one"));
    let outcome = Ok(done(run.current_step(), "final answer"));
    run.record_outcome(outcome, &mut msg);

    let (adv, _) = run.advance(false, &mut msg);
    assert_eq!(adv, Advance::Finished);
    let (result, events, _) = run.finish(&msg);
    assert_eq!(result.completed_steps, 2);
    assert_eq!(result.total_steps, 2);
    assert_eq!(result.final_reply, "final answer");
    assert_eq!(result.stop_reason, PlanStopReason::Completed);
    assert_eq!(result.step_results.len(), 2);
    assert_eq!(result.step_results[0].output, "page one");
    assert!(matches!(
        events[0],
        PlanStreamEvent::PlanComplete { completed_steps: 2, total_steps: 2, final_reply_length: 12, .. }
    ));
}

#[test]
fn aborted_run_reports_abort() {
    let mut msg = MessageContext::new("sys");
    let (mut run, _) = PlanRun::start(vec![PlanStep::new(1, "mcp__a__b", "g")], &PlanSettings::new(), false);
    let (adv, events) = run.advance(true, &mut msg);
    assert_eq!(adv, Advance::Finished);
    assert!(matches!(events[0], PlanStreamEvent::PlanAbort));
    let (result, _, _) = run.finish(&msg);
    assert_eq!(result.stop_reason, PlanStopReason::UserAbort);
}

#[test]
fn unknown_tool_step_is_skipped() {
    let tools = vec![ToolDefinition::from_mcp("mcp__a__known", None, json("{}"))];
    let settings = PlanSettings::new().with_available_tools(&tools);
    let mut msg = MessageContext::new("sys");
    let (mut run, _) = PlanRun::start(vec![PlanStep::new(1, "mcp__a__unknown", "g")], &settings, false);
    let (adv, events) = run.advance(false, &mut msg);
    assert_ne!(adv, Advance::Execute);
    assert!(events.iter().any(|e| matches!(e, PlanStreamEvent::StepSkipped { step: 1, .. })));
}

#[test]
fn failing_step_is_retried_before_skip() {
    let settings = PlanSettings::new().with_max_retries(1);
    let mut msg = MessageContext::new("sys");
    let (mut run, _) = PlanRun::start(vec![PlanStep::new(1, "mcp__a__b", "g")], &settings, false);
    let (adv, _) = run.advance(false, &mut msg);
    assert_eq!(adv, Advance::Execute);
    let (obs, _) = run.record_outcome(Err(PlanError::tool("mcp__a__b", "down".to_string())), &mut msg);
    assert_eq!(obs.decision, ObserveDecision::RetryCurrent);
    let (adv, _) = run.advance(false, &mut msg);
    assert_eq!(adv, Advance::Execute);
    let (obs, _) = run.record_outcome(Err(PlanError::tool("mcp__a__b", "down".to_string())), &mut msg);
    assert!(matches!(obs.decision, ObserveDecision::SkipStep { .. }));
    assert!(run.is_finished());
}

#[test]
fn step_context_history_and_dependencies() {
    let mut ctx = StepContext::new();
    let s1 = deterministic_result(&PlanStep::new(1, "mcp__a__one", "g1"), "x".repeat(60));
    ctx.push(s1, 5);
    ctx.mark_skipped(2);
    assert_eq!(ctx.get_output(1), Some("x".repeat(60)));
    assert_eq!(ctx.get_output(3), None);
    assert!(ctx.is_skipped(2));
    assert!(!ctx.is_skipped(1));
    assert_eq!(ctx.get_duration_ms(1), 5);
    assert_eq!(ctx.executed_count(), 1);
    let summary = ctx.get_history_summary();
    assert_eq!(summary, format!("步骤1 (mcp__a__one): g1 - 输出: {}", "x".repeat(50)));
    let step = PlanStep::new(3, "mcp__a__three", "g3").with_dependencies(&[1, 2]);
    let deps = collect_dependency_outputs(&step, &ctx);
    assert_eq!(deps, format!("步骤1 输出:\n{}", "x".repeat(60)));
}

#[test]
fn step_exec_helpers() {
    assert!(step_precheck(StepType::Reasoning, "").is_some());
    assert!(step_precheck(StepType::Reasoning, "m").is_none());
    assert!(step_precheck(StepType::Deterministic, "").is_none());
    let steps = vec![PlanStep::new(1, "t", "打开页面"), PlanStep::exploratory(2, "找按钮")];
    assert_eq!(replan_summary(&steps), "步骤1 (\"deterministic\"): 打开页面\n步骤2 (\"exploratory\"): 找按钮");
    assert_eq!(tool_output_text(&json("\"plain\"")), "plain");
    assert_eq!(tool_output_text(&json("{\"a\":1}")), "{\"a\":1}");
    let r = reasoning_result(&PlanStep::exploratory(4, "think"), "answer".to_string(), 9);
    assert_eq!(r.duration_ms, 9);
    assert_eq!(r.step.actions.len(), 1);
    assert_eq!(r.step.actions[0].tool_name, "reasoning");
    assert_eq!(r.step.actions[0].parameters, json("{\"goal\":\"think\"}"));
    assert_eq!(r.step.actions[0].output.as_deref(), Some("answer"));
    let e = missing_provider("Exploratory step", "exploratory");
    assert_eq!(e.text(), "Tool error: Tool 'exploratory' execution failed: Exploratory step requires LLM provider but none configured");
    let mut no_actions = PlanStep::exploratory(5, "g");
    no_actions.step_type = StepType::Deterministic;
    match deterministic_call(&no_actions, &StepContext::new()) {
        Err(PlanError::ToolError(e)) => {
            assert_eq!(e.name, "deterministic");
            assert_eq!(e.message, "Deterministic step must have at least one action");
        }
        other => panic!("unexpected {:?}", other),
    }
}

#[test]
fn retry_limit_of_255_is_accepted() {
    let settings = PlanSettings::new().with_max_retries(255);
    let mut msg = MessageContext::new("sys");
    let (mut run, _) = PlanRun::start(vec![PlanStep::new(1, "mcp__a__b", "g")], &settings, false);
    let (adv, _) = run.advance(false, &mut msg);
    assert_eq!(adv, Advance::Execute);
    let (obs, events) = run.record_outcome(Err(PlanError::tool("mcp__a__b", "down".to_string())), &mut msg);
    assert_eq!(obs.decision, ObserveDecision::RetryCurrent);
    assert!(matches!(events[1], PlanStreamEvent::StepRetry { step: 1, attempt: 1, max_retries: 255 }));
    assert!(msg.messages().last().unwrap().content.contains("【重试信号】第 2 次尝试"));
    for _ in 1..255 {
        run.advance(false, &mut msg);
        run.record_outcome(Err(PlanError::tool("mcp__a__b", "down".to_string())), &mut msg);
    }
    assert!(msg.messages().last().unwrap().content.contains("【重试信号】第 256 次尝试"));
    run.advance(false, &mut msg);
    let (obs, _) = run.record_outcome(Err(PlanError::tool("mcp__a__b", "down".to_string())), &mut msg);
    assert!(matches!(obs.decision, ObserveDecision::SkipStep { .. }));
}

#[test]
fn a_new_plan_runs_from_its_first_step() {
    let settings = PlanSettings::new().with_max_retries(0);
    let mut msg = MessageContext::new("sys");
    let steps = vec![PlanStep::new(1, "mcp__a__one", "first"), PlanStep::new(2, "mcp__a__two", "second")];
    let (mut run, _) = PlanRun::start(steps, &settings, true);
    run.advance(false, &mut msg);
    let (obs, _) = run.record_outcome(Err(PlanError::tool("mcp__a__one", "down".to_string())), &mut msg);
    assert!(matches!(obs.decision, ObserveDecision::ReplanRequired { .. }));
    let new_steps = vec![PlanStep::new(2, "mcp__a__alt", "alternative"), PlanStep::new(3, "mcp__a__end", "end")];
    let events = run.apply_replan(Ok(new_steps), "down");
    assert!(matches!(events[0], PlanStreamEvent::PlanReplan { new_step_count: 2, .. }));
    assert!(run.context().is_skipped(1));
    assert_eq!(run.steps().len(), 3);
    let (adv, _) = run.advance(false, &mut msg);
    assert_eq!(adv, Advance::Execute);
    assert_eq!(run.current_step().step_goal, "alternative");
}
