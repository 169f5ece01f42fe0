use agent_provider::plans::plans_from_value;
use agent_provider::intent_prompt::intent_from_value;
use agent_provider::tool_intent::intent_plan_from_value;
use agent_provider::plans::{parse_plans_response, build_plans_user_message, PlanStep};
use agent_provider::types::StepType;


// =============================================================================
// 反序列化兼容性测试：depends_on 只接受数组
// =============================================================================

#[test]
fn test_parse_plans_response_basic() {
    // 两个 exploratory 步骤（actions 应为空），最后一个必须有 success_criteria
    let json = r#"{
        "steps": [
            {
                "order": 1,
                "step_type": "exploratory",
                "step_goal": "打开百度首页",
                "expected_output": "百度首页加载完成",
                "depends_on": [],
                "input": [],
                "success_criteria": [],
                "actions": []
            },
            {
                "order": 2,
                "step_type": "exploratory",
                "step_goal": "提取前三个搜索结果",
                "depends_on": [1],
                "input": ["{{step_1.output}}"],
                "success_criteria": [
                    "返回内容是 Markdown 列表",
                    "列表包含 3 个搜索结果"
                ],
                "actions": []
            }
        ]
    }"#;

    let resp = parse_plans_response(json).expect("parse should succeed");
    assert_eq!(resp.steps.len(), 2);
    assert_eq!(resp.steps[0].order, 1);
    assert_eq!(resp.steps[0].step_type, StepType::Exploratory);
    assert!(resp.steps[0].actions.is_empty());
    // depends_on = [1] → 反序列化为 vec![1]
    assert_eq!(resp.steps[1].depends_on, vec![1]);
    // input 字段透传
    assert_eq!(resp.steps[1].input, vec!["{{step_1.output}}".to_string()]);
    // success_criteria 透传
    assert_eq!(resp.steps[1].success_criteria.len(), 2);
}

#[test]
fn test_parse_plans_response_deterministic_with_actions() {
    // 路径明确的 deterministic 步骤：必须给出完整的 actions，最后一步 success_criteria 非空
    let json = r#"{
        "steps": [
            {
                "order": 1,
                "step_type": "deterministic",
                "step_goal": "打开百度首页",
                "expected_output": "百度首页加载完成",
                "depends_on": [],
                "input": [],
                "success_criteria": [],
                "actions": [
                    {
                        "order": 1,
                        "tool_name": "mcp__browser__navigate",
                        "parameters": {"url": "https://www.baidu.com"}
                    }
                ]
            },
            {
                "order": 2,
                "step_type": "deterministic",
                "step_goal": "截取当前页面",
                "expected_output": "返回截图文件路径",
                "depends_on": [1],
                "input": [],
                "success_criteria": [
                    "返回内容是本地文件路径",
                    "文件大小 > 0"
                ],
                "actions": [
                    {
                        "order": 1,
                        "tool_name": "mcp__browser__screenshot",
                        "parameters": {"path": "~/screenshots/baidu.png", "fullPage": true}
                    },
                    {
                        "order": 2,
                        "tool_name": "mcp__browser__wait",
                        "parameters": {"ms": 500}
                    }
                ]
            }
        ]
    }"#;

    let resp = parse_plans_response(json).expect("parse should succeed");
    assert_eq!(resp.steps.len(), 2);
    assert_eq!(resp.steps[0].step_type, StepType::Deterministic);
    assert_eq!(resp.steps[0].actions.len(), 1);
    assert_eq!(resp.steps[0].actions[0].tool_name, "mcp__browser__navigate");
    assert_eq!(
        resp.steps[0].actions[0].parameters.get("url").and_then(|v| v.as_str()),
        Some("https://www.baidu.com")
    );
    // 第二步多个 actions
    assert_eq!(resp.steps[1].actions.len(), 2);
    assert_eq!(resp.steps[1].actions[1].tool_name, "mcp__browser__wait");
    // depends_on = [1]（数组）→ 保持 vec![1]
    assert_eq!(resp.steps[1].depends_on, vec![1]);
}

#[test]
fn test_parse_plans_response_mixed_scenario() {
    // 混合场景：deterministic（带 actions）+ exploratory（空 actions），最后一步必填 success_criteria
    let json = r#"{
        "steps": [
            {
                "order": 1,
                "step_type": "deterministic",
                "step_goal": "打开邮箱登录页",
                "depends_on": [],
                "input": [],
                "success_criteria": [],
                "actions": [
                    {
                        "order": 1,
                        "tool_name": "mcp__browser__navigate",
                        "parameters": {"url": "https://mail.example.com/login"}
                    }
                ]
            },
            {
                "order": 2,
                "step_type": "exploratory",
                "step_goal": "填写账号密码并登录",
                "depends_on": [1],
                "input": [],
                "success_criteria": [],
                "actions": []
            },
            {
                "order": 3,
                "step_type": "exploratory",
                "step_goal": "下载最新附件",
                "depends_on": [2],
                "input": [],
                "success_criteria": [
                    "附件已保存到本地",
                    "返回本地文件绝对路径"
                ],
                "actions": []
            }
        ]
    }"#;

    let resp = parse_plans_response(json).expect("parse should succeed");
    assert_eq!(resp.steps.len(), 3);
    assert_eq!(resp.steps[0].step_type, StepType::Deterministic);
    assert_eq!(resp.steps[0].actions.len(), 1);
    assert_eq!(resp.steps[1].step_type, StepType::Exploratory);
    assert!(resp.steps[1].actions.is_empty());
    assert_eq!(resp.steps[2].step_type, StepType::Exploratory);
    assert!(resp.steps[2].actions.is_empty());
    assert_eq!(resp.steps[2].success_criteria.len(), 2);
}

// =============================================================================
// 校验失败测试
// =============================================================================

#[test]
fn test_parse_plans_response_deterministic_empty_actions_fails() {
    // deterministic 步骤 actions 为空 → 应报错
    let json = r#"{
        "steps": [
            {
                "order": 1,
                "step_type": "deterministic",
                "step_goal": "打开百度",
                "depends_on": [],
                "input": [],
                "success_criteria": ["done"],
                "actions": []
            }
        ]
    }"#;
    let err = parse_plans_response(json).expect_err("should fail");
    assert!(err.message().contains("deterministic"), "error: {}", err.message());
}

#[test]
fn test_parse_plans_response_invalid_subaction_tool_name() {
    // SubAction 的 tool_name 为空 → 应报错
    let json = r#"{
        "steps": [
            {
                "order": 1,
                "step_type": "deterministic",
                "step_goal": "test",
                "depends_on": [],
                "input": [],
                "success_criteria": ["done"],
                "actions": [
                    {"order": 1, "tool_name": "", "parameters": {}}
                ]
            }
        ]
    }"#;
    assert!(parse_plans_response(json).is_err());
}

#[test]
fn test_parse_plans_response_invalid_subaction_parameters() {
    // SubAction 的 parameters 不是对象 → 应报错
    let json = r#"{
        "steps": [
            {
                "order": 1,
                "step_type": "deterministic",
                "step_goal": "test",
                "depends_on": [],
                "input": [],
                "success_criteria": ["done"],
                "actions": [
                    {"order": 1, "tool_name": "t", "parameters": "not-an-object"}
                ]
            }
        ]
    }"#;
    assert!(parse_plans_response(json).is_err());
}

#[test]
fn test_parse_plans_response_with_markdown() {
    // Markdown 包裹的 JSON 也能解析
    let response = r#"```json
{
  "steps": [
{
  "order": 1,
  "step_goal": "test",
  "step_type": "deterministic",
  "depends_on": [],
  "input": [],
  "success_criteria": ["done"],
  "actions": [{"order": 1, "tool_name": "mcp__t", "parameters": {}}]
}
  ]
}
```"#;
    let resp = parse_plans_response(response).expect("should parse");
    assert_eq!(resp.steps.len(), 1);
    assert_eq!(resp.steps[0].step_type, StepType::Deterministic);
    assert_eq!(resp.steps[0].actions.len(), 1);
}

#[test]
fn test_parse_plans_response_invalid_order() {
    // order 必须从 1 开始连续递增，跳跃的 order 应报错
    let json = r#"{"steps": [{"order": 2, "step_goal": "skip", "step_type": "exploratory", "depends_on": [], "input": [], "success_criteria": ["done"], "actions": []}]}"#;
    assert!(parse_plans_response(json).is_err());
}

#[test]
fn test_parse_plans_response_invalid_depends_on() {
    // depends_on 指向不存在的步骤 → 应报错
    let json = r#"{
        "steps": [
            {"order": 1, "step_goal": "a", "depends_on": [], "input": [], "success_criteria": [], "actions": [{"order": 1, "tool_name": "t", "parameters": {}}]},
            {"order": 2, "step_goal": "b", "depends_on": [5], "step_type": "exploratory", "input": [], "success_criteria": ["done"], "actions": []}
        ]
    }"#;
    assert!(parse_plans_response(json).is_err());
}

#[test]
fn test_parse_plans_response_empty_steps() {
    let json = r#"{"steps": []}"#;
    assert!(parse_plans_response(json).is_err());
}

// =============================================================================
// 新增：depends_on 多形式 + success_criteria 校验 + input 字段
// =============================================================================

#[test]
fn test_parse_plans_response_depends_on_array_form() {
    // depends_on 直接使用数组
    let json = r#"{
        "steps": [
            {"order": 1, "step_goal": "a", "depends_on": [], "input": [], "success_criteria": [], "actions": [{"order": 1, "tool_name": "t", "parameters": {}}]},
            {"order": 2, "step_goal": "b", "depends_on": [1], "step_type": "exploratory", "input": [], "success_criteria": ["done"], "actions": []}
        ]
    }"#;
    let resp = parse_plans_response(json).expect("parse should succeed");
    assert_eq!(resp.steps[1].depends_on, vec![1]);
}

#[test]
fn test_parse_plans_response_depends_on_null_form() {
    // depends_on 空数组 → 结果为空 Vec
    let json = r#"{
        "steps": [
            {"order": 1, "step_goal": "a", "depends_on": [], "input": [], "success_criteria": ["done"], "actions": [{"order": 1, "tool_name": "t", "parameters": {}}]}
        ]
    }"#;
    let resp = parse_plans_response(json).expect("parse should succeed");
    assert!(resp.steps[0].depends_on.is_empty());
}

#[test]
fn test_parse_plans_response_multi_dependency() {
    // 多依赖：步骤 3 同时依赖步骤 1 与步骤 2
    let json = r#"{
        "steps": [
            {"order": 1, "step_goal": "fetch a", "depends_on": [], "input": [], "success_criteria": [], "actions": [{"order": 1, "tool_name": "t", "parameters": {}}]},
            {"order": 2, "step_goal": "fetch b", "depends_on": [], "input": [], "success_criteria": [], "actions": [{"order": 1, "tool_name": "t", "parameters": {}}]},
            {"order": 3, "step_goal": "merge", "depends_on": [1, 2], "step_type": "exploratory", "input": ["{{step_1.output}}", "{{step_2.output}}"], "success_criteria": ["merged"], "actions": []}
        ]
    }"#;
    let resp = parse_plans_response(json).expect("parse should succeed");
    assert_eq!(resp.steps[2].depends_on, vec![1, 2]);
    assert_eq!(
        resp.steps[2].input,
        vec!["{{step_1.output}}".to_string(), "{{step_2.output}}".to_string()]
    );
}

#[test]
fn test_parse_plans_response_multi_dependency_any_invalid_fails() {
    // 多依赖中只要有一条非法就报错
    let json = r#"{
        "steps": [
            {"order": 1, "step_goal": "a", "depends_on": [], "input": [], "success_criteria": [], "actions": [{"order": 1, "tool_name": "t", "parameters": {}}]},
            {"order": 2, "step_goal": "b", "depends_on": [1, 9], "step_type": "exploratory", "input": [], "success_criteria": ["done"], "actions": []}
        ]
    }"#;
    assert!(parse_plans_response(json).is_err());
}

#[test]
fn test_parse_plans_response_last_step_requires_success_criteria() {
    // 最后一个步骤 success_criteria 为空 → 应报错
    let json = r#"{
        "steps": [
            {"order": 1, "step_goal": "a", "depends_on": [], "input": [], "success_criteria": [], "actions": [{"order": 1, "tool_name": "t", "parameters": {}}]},
            {"order": 2, "step_goal": "b", "depends_on": [1], "step_type": "exploratory", "input": [], "success_criteria": [], "actions": []}
        ]
    }"#;
    let err = parse_plans_response(json).expect_err("should fail");
    assert!(
        err.message().contains("success_criteria"),
        "error: {}",
        err.message()
    );
}

#[test]
fn test_parse_plans_response_empty_success_criteria_string_fails() {
    // success_criteria 中有空字符串 → 应报错
    let json = r#"{
        "steps": [
            {"order": 1, "step_goal": "a", "depends_on": [], "input": [], "success_criteria": ["valid", ""], "actions": []}
        ]
    }"#;
    let err = parse_plans_response(json).expect_err("should fail");
    assert!(
        err.message().contains("success_criteria[1]"),
        "error: {}",
        err.message()
    );
}

#[test]
fn test_parse_plans_response_with_input_field() {
    // input 字段正确透传
    let json = r#"{
        "steps": [
            {"order": 1, "step_goal": "a", "depends_on": [], "input": ["user.id", "config.timeout"], "success_criteria": [], "actions": [{"order": 1, "tool_name": "t", "parameters": {}}]},
            {"order": 2, "step_goal": "b", "depends_on": [1], "step_type": "exploratory", "input": ["{{step_1.output}}"], "success_criteria": ["done"], "actions": []}
        ]
    }"#;
    let resp = parse_plans_response(json).expect("parse should succeed");
    assert_eq!(
        resp.steps[0].input,
        vec!["user.id".to_string(), "config.timeout".to_string()]
    );
    assert_eq!(resp.steps[1].input, vec!["{{step_1.output}}".to_string()]);
}

#[test]
fn test_parse_plans_response_exploratory_with_actions_warns() {
    // exploratory 步骤返回非空 actions 不报错，仅警告（不影响解析）
    let json = r#"{
        "steps": [
            {"order": 1, "step_goal": "a", "depends_on": [], "input": [], "success_criteria": ["done"], "step_type": "exploratory", "actions": [{"order": 1, "tool_name": "t", "parameters": {}}]}
        ]
    }"#;
    let resp = parse_plans_response(json).expect("parse should succeed");
    assert!(!resp.steps[0].actions.is_empty());
}

// =============================================================================
// Builder / 构造器测试
// =============================================================================

#[test]
fn test_plan_step_exploratory_constructor() {
    // exploratory 构造器 + with_dependency（push 语义）+ with_input + with_success_criteria
    let step = PlanStep::exploratory(2, "test goal")
        .with_expected_output("test output")
        .with_dependency(1)
        .with_input(&["{{step_1.output}}"])
        .with_success_criteria(&["done"]);
    assert_eq!(step.order, 2);
    assert_eq!(step.step_type, StepType::Exploratory);
    assert!(step.actions.is_empty());
    // with_dependency 是 push 语义
    assert_eq!(step.depends_on, vec![1]);
    assert_eq!(step.expected_output.as_deref(), Some("test output"));
    assert_eq!(step.input, vec!["{{step_1.output}}".to_string()]);
    assert_eq!(step.success_criteria, vec!["done".to_string()]);
}

#[test]
fn test_plan_step_with_dependency_is_push_semantics() {
    // 多次调用 with_dependency 应累加到 Vec
    let step = PlanStep::exploratory(3, "merge")
        .with_dependency(1)
        .with_dependency(2);
    assert_eq!(step.depends_on, vec![1, 2]);
}

#[test]
fn test_plan_step_with_dependencies_batch() {
    // with_dependencies 一次性接受多个
    let step = PlanStep::exploratory(3, "merge").with_dependencies(&[1, 2]);
    assert_eq!(step.depends_on, vec![1, 2]);

    // 与 with_dependency 链式混合
    let step2 = PlanStep::exploratory(4, "merge2")
        .with_dependencies(&[1, 2])
        .with_dependency(3);
    assert_eq!(step2.depends_on, vec![1, 2, 3]);
}

#[test]
fn test_plan_step_with_input_builder() {
    let step = PlanStep::exploratory(2, "use data").with_input(&["step_1.user_id", "step_1.config"]);
    assert_eq!(
        step.input,
        vec!["step_1.user_id".to_string(), "step_1.config".to_string()]
    );
}

#[test]
fn test_plan_step_with_success_criteria_builder() {
    let step = PlanStep::exploratory(2, "final")
        .with_success_criteria(&["c1", "c2", "c3"]);
    assert_eq!(
        step.success_criteria,
        vec!["c1".to_string(), "c2".to_string(), "c3".to_string()]
    );
}

#[test]
fn test_plan_step_deterministic_constructor_preserves_actions() {
    // PlanStep::new 是确定性步骤构造器，自动把 tool_name 转成第一个 SubAction
    let step = PlanStep::new(1, "mcp__browser__navigate", "打开百度首页")
        .with_expected_output("百度首页加载完成");
    assert_eq!(step.order, 1);
    assert_eq!(step.step_type, StepType::Deterministic);
    assert_eq!(step.actions.len(), 1);
    assert_eq!(step.actions[0].tool_name, "mcp__browser__navigate");
    assert_eq!(step.actions[0].order, 1);
    assert_eq!(step.expected_output.as_deref(), Some("百度首页加载完成"));
    // 构造器默认 Vec 都为空
    assert!(step.depends_on.is_empty());
    assert!(step.input.is_empty());
    assert!(step.success_criteria.is_empty());
}

// =============================================================================
// build_plans_user_message 新签名测试
// =============================================================================

#[test]
fn test_build_plans_user_message_new_signature() {
    // 新签名：单参透传
    let content = "【用户请求】\n查询天气\n\n【意图分析 reasoning】\n调用 API";
    let msg = build_plans_user_message(content);
    assert_eq!(msg, content);
}

#[test]
fn parsed_replies_are_read_from_their_value() {
    let v: serde_json::Value = serde_json::from_str(
        r#"{"steps": [{"order": 1, "step_goal": "a", "success_criteria": ["done"], "actions": [{"order": 1, "tool_name": "t", "parameters": {}}]}]}"#,
    )
    .unwrap();
    let plan = plans_from_value(&v).expect("plan");
    assert_eq!(plan.steps.len(), 1);
    assert_eq!(plan.steps[0].step_goal, "a");
    let empty: serde_json::Value = serde_json::from_str(r#"{"steps": []}"#).unwrap();
    assert!(plans_from_value(&empty).unwrap_err().message().contains("steps array is empty"));
    let not_object: serde_json::Value = serde_json::from_str("[1]").unwrap();
    assert!(plans_from_value(&not_object).unwrap_err().message().contains("Invalid plans JSON: expected object"));

    let intent: serde_json::Value = serde_json::from_str(r#"{"need_agent": true, "reasoning": "  split it  "}"#).unwrap();
    let r = intent_from_value(&intent).unwrap();
    assert!(r.need_agent);
    assert_eq!(r.reasoning, "split it");
    let bad: serde_json::Value = serde_json::from_str(r#"{"need_agent": "yes", "reasoning": "x"}"#).unwrap();
    assert!(intent_from_value(&bad).unwrap_err().message().contains("need_agent must be a boolean"));

    let draft: serde_json::Value = serde_json::from_str(r#"{"need_agent": false}"#).unwrap();
    let d = intent_plan_from_value(&draft).unwrap();
    assert!(!d.need_agent);
    assert!(d.reasoning.is_empty());
    assert!(d.steps.is_empty());
}

#[test]
fn depends_on_items_are_refused_by_position() {
    let step = |deps: &str| {
        format!(
            r#"{{"steps": [{{"order": 1, "step_goal": "a", "depends_on": {}, "success_criteria": ["done"], "actions": [{{"order": 1, "tool_name": "t", "parameters": {{}}}}]}}]}}"#,
            deps
        )
    };
    let err = parse_plans_response(&step("[300]")).unwrap_err().message();
    assert!(err.contains("Failed to parse step #1: depends_on[0] = 300 exceeds u8::MAX"), "{}", err);
    let err = parse_plans_response(&step("[1.5]")).unwrap_err().message();
    assert!(err.contains("depends_on[0] must be a non-negative integer, got: 1.5"), "{}", err);
    let err = parse_plans_response(&step("[-2]")).unwrap_err().message();
    assert!(err.contains("depends_on[0] must be a non-negative integer, got: -2"), "{}", err);
    let err = parse_plans_response(&step(r#"[0, "x"]"#)).unwrap_err().message();
    assert!(err.contains(r#"depends_on[1] must be an integer, got: "x""#), "{}", err);
}
