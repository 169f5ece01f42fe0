use agent_provider::exploratory::{first_tool_call, ExploreRun};
use agent_provider::message_context::MessageContext;
use agent_provider::plan_types::PlanError;
use agent_provider::plans::PlanStep;
use agent_provider::types::FunctionCall;
use serde_json::Value;

fn json(text: &str) -> Value {
    serde_json::from_str(text).unwrap()
}

fn call(name: &str, args: &str) -> FunctionCall {
    FunctionCall { id: "x".to_string(), name: name.to_string(), arguments: json(args) }
}

#[test]
fn explore_run_records_calls_and_succeeds() {
    let step = PlanStep::exploratory(2, "找到搜索框").with_expected_output("选择器");
    let mut msg = MessageContext::new("sys");
    let mut run = ExploreRun::start(&step, 3, true, &mut msg).unwrap();
    assert_eq!(msg.messages().len(), 2);
    assert_eq!(msg.messages()[1].content, "步骤 2 | 目标: 找到搜索框\n期望产出: 选择器");
    assert!(run.can_continue());
    let out = run.record_tool(&call("mcp__browser__snapshot", "{}"), &json("\"page\""), &mut msg);
    assert_eq!(out, "page");
    assert_eq!(msg.messages()[2].content, "步骤 2 | 工具 mcp__browser__snapshot 执行结果: page");
    assert!(run.end_batch(&mut msg));
    let history = run.goal_check_history();
    assert_eq!(history, vec![("mcp__browser__snapshot".to_string(), "page".to_string())]);
    assert!(run.goal_checked(true, "found it", &mut msg));
    assert_eq!(msg.messages().last().unwrap().content, "步骤 2 | 判断: YES 原因: found it");
    let result = run.success(&step, 11);
    assert_eq!(result.duration_ms, 11);
    assert_eq!(result.step.actions.len(), 1);
    assert_eq!(result.step.actions[0].order, 1);
    assert_eq!(result.step.actions[0].tool_name, "mcp__browser__snapshot");
    assert_eq!(result.step.actions[0].output.as_deref(), Some("page"));
}

#[test]
fn explore_run_stops_on_repeated_calls() {
    let step = PlanStep::exploratory(1, "goal");
    let mut msg = MessageContext::new("sys");
    let mut run = ExploreRun::start(&step, 5, true, &mut msg).unwrap();
    for round in 0..3 {
        run.record_tool(&call("mcp__a__b", "{\"q\":1}"), &json("{\"r\":2}"), &mut msg);
        let go = run.end_batch(&mut msg);
        if round < 2 {
            assert!(go);
            if round == 1 {
                assert_eq!(
                    msg.messages().last().unwrap().content,
                    "步骤 1 | 判断: NO 原因: 你连续使用了相同的工具调用，请换一种策略，尝试不同的工具或参数来达成目标"
                );
            }
            run.goal_checked(false, "not yet", &mut msg);
        } else {
            assert!(!go);
        }
    }
    assert!(!run.can_continue());
    match run.failure() {
        PlanError::ToolError(e) => {
            assert_eq!(e.name, "exploratory");
            assert_eq!(e.message, "Step 'goal' failed after 5 calls: {\"r\":2}");
        }
        other => panic!("unexpected {:?}", other),
    }
}

#[test]
fn explore_run_budget_is_spent_by_failed_rounds() {
    let step = PlanStep::exploratory(1, "g");
    let mut msg = MessageContext::new("sys");
    let mut run = ExploreRun::start(&step, 1, true, &mut msg).unwrap();
    assert!(!run.goal_checked(false, "not yet", &mut msg));
    assert!(!run.can_continue());
    match run.failure() {
        PlanError::ToolError(e) => assert_eq!(e.message, "Step 'g' failed after 1 calls: unknown"),
        other => panic!("unexpected {:?}", other),
    }
}

#[test]
fn first_tool_call_uses_time_id() {
    let calls = vec![call("mcp__a__b", "{\"k\":\"v\"}"), call("mcp__a__c", "{}")];
    let c = first_tool_call(&calls, "", 1234).unwrap();
    assert_eq!(c.id, "exploratory_1234");
    assert_eq!(c.name, "mcp__a__b");
    assert_eq!(c.arguments, json("{\"k\":\"v\"}"));
    match first_tool_call(&[], "I think", 1) {
        Err(PlanError::ToolError(e)) => assert_eq!(e.message, "No tool call from LLM: I think"),
        other => panic!("unexpected {:?}", other),
    }
}

#[test]
fn goal_check_message_carries_its_reason() {
    let mut msg = MessageContext::new("sys");
    msg.push_goal_check(2, true, "done");
    let last = msg.messages().last().unwrap();
    assert!(last.content.starts_with("步骤 2 | 判断: YES"));
    assert!(last.content.contains("原因: done"));
    assert_eq!(msg.messages().len(), 2);
}

#[test]
fn exploratory_step_without_provider_fails_and_leaves_history() {
    let step = PlanStep::exploratory(3, "goal");
    let mut msg = MessageContext::new("sys");
    match ExploreRun::start(&step, 5, false, &mut msg) {
        Err(PlanError::ToolError(e)) => {
            assert_eq!(e.name, "exploratory");
            assert_eq!(e.message, "Exploratory step requires LLM provider but none configured");
        }
        _ => panic!("expected the missing-provider error"),
    }
    assert_eq!(msg.messages().len(), 1);
}
