use agent_provider::plans::parse_plans_response;


#[test]
fn test_plans_analyzer_builder_chain() {
    // 测试 builder 方法链式调用（仅验证结构，不调用 LLM）
    // PlansAnalyzer 依赖 provider，无法在单元测试中实例化
    // 此测试验证 PlansResponse 解析逻辑
    let json = r#"{
        "steps": [
            {
                "order": 1,
                "step_type": "deterministic",
                "step_goal": "读取配置文件",
                "expected_output": "配置对象",
                "depends_on": [],
                "input": [],
                "success_criteria": [],
                "actions": [
                    {"order": 1, "tool_name": "mcp__fs__read_file", "parameters": {"path": "config.json"}}
                ]
            },
            {
                "order": 2,
                "step_type": "exploratory",
                "step_goal": "解析配置内容",
                "expected_output": "解析后的配置对象",
                "depends_on": [1],
                "input": ["{{step_1.output}}"],
                "success_criteria": ["配置解析成功"],
                "actions": []
            }
        ]
    }"#;

    let resp = parse_plans_response(json).expect("parse should succeed");
    assert_eq!(resp.steps.len(), 2);
    assert_eq!(resp.steps[0].order, 1);
    assert_eq!(resp.steps[1].order, 2);
    assert_eq!(resp.steps[1].input, vec!["{{step_1.output}}".to_string()]);
}

#[test]
fn test_plans_analyzer_empty_steps_error() {
    // 空 steps 数组应返回错误
    let json = r#"{"steps": []}"#;
    let err = parse_plans_response(json).expect_err("should fail");
    assert!(err.message().contains("steps array is empty"));
}

#[test]
fn test_plans_analyzer_reasoning_step() {
    // reasoning 类型的步骤（actions 应为空）
    let json = r#"{
        "steps": [
            {
                "order": 1,
                "step_type": "reasoning",
                "step_goal": "对比两产品参数并给出建议",
                "expected_output": "详细对比报告",
                "depends_on": [],
                "input": [],
                "success_criteria": ["给出明确推荐"],
                "actions": []
            }
        ]
    }"#;

    let resp = parse_plans_response(json).expect("parse should succeed");
    assert_eq!(resp.steps.len(), 1);
    // the step type is written by its snake_case name
    assert_eq!(resp.steps[0].step_type.as_str(), "reasoning");
}
