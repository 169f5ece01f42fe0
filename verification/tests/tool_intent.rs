use agent_provider::tool_intent::{
    build_intent_user_message, build_tools_description, can_parse_intent_response, extract_params_info,
    extract_u8, extract_optional_u8, extract_user_request, intent_system_prompt, parse_intent_response,
};
use agent_provider::types::{ChatMessage, Role, StepType, ToolDefinition};
use agent_provider::error::LlmError;

fn parse_json(text: &str) -> Result<serde_json::Value, serde_json::Error> {
    serde_json::from_str(text)
}

#[test]
fn test_intent_system_prompt_contains_rules() {
    let prompt = intent_system_prompt();
    assert!(prompt.contains("need_agent"));
    assert!(prompt.contains("mcp__server__tool"));
    assert!(prompt.contains("steps"));
}

#[test]
fn test_build_tools_description_empty() {
    let tools: Vec<ToolDefinition> = vec![];
    let desc = build_tools_description(&tools);
    assert_eq!(desc, "（无可用工具）");
}

#[test]
fn test_extract_user_request() {
    let messages = vec![
        ChatMessage::new(Role::System, "你是一个助手"),
        ChatMessage::new(Role::User, "你好"),
        ChatMessage::new(Role::Assistant, "你好！"),
        ChatMessage::new(Role::User, "帮我搜索天气"),
    ];
    let request = extract_user_request(&messages);
    assert_eq!(request, "帮我搜索天气");
}

#[test]
fn test_parse_intent_response_simple() {
    let json = r#"{"need_agent":false,"reasoning":"简单问答","steps":[]}"#;
    let plan = parse_intent_response(json).unwrap();
    assert!(!plan.need_agent);
    assert_eq!(plan.steps.len(), 0);
}

#[test]
fn test_parse_intent_response_with_markdown() {
    let json = r#"```json
{"need_agent":true,"reasoning":"需要多步操作","steps":[{"order":1,"tool_name":"mcp__test__tool","parameters":{"query":"test"},"step_goal":"执行操作","depends_on":null}]}
```"#;
    let plan = parse_intent_response(json).unwrap();
    assert!(plan.need_agent);
    assert_eq!(plan.steps.len(), 1);
    assert_eq!(plan.steps[0].parameters, parse_json(r#"{"query": "test"}"#).unwrap());
}

#[test]
fn test_parse_intent_response_with_parameters_array_fallback() {
    let json = r#"{"need_agent":true,"reasoning":"测试","steps":[{"order":1,"tool_name":"mcp__test__tool","parameters":[{"key":"value"}],"step_goal":"测试","depends_on":null}]}"#;
    let plan = parse_intent_response(json).unwrap();
    assert!(plan.need_agent);
    assert_eq!(plan.steps[0].parameters, parse_json("{}").unwrap());
}

#[test]
fn draft_steps_read_all_fields() {
    let json = r#"{"need_agent":true,"reasoning":"r","steps":[{"order":[2],"step_type":"exploratory","step_goal":"找","expected_output":"结果","depends_on":[1]}]}"#;
    let plan = parse_intent_response(json).unwrap();
    let s = &plan.steps[0];
    assert_eq!(s.order, 2);
    assert_eq!(s.step_type, StepType::Exploratory);
    assert_eq!(s.tool_name, "");
    assert_eq!(s.step_goal, "找");
    assert_eq!(s.expected_output.as_deref(), Some("结果"));
    assert_eq!(s.depends_on, Some(1));
    assert_eq!(s.parameters, parse_json("{}").unwrap());
}

#[test]
fn draft_errors_name_the_problem() {
    let msg = |r: Result<_, LlmError>| match r {
        Err(e) => e.message(),
        Ok(_) => panic!("expected an error"),
    };
    assert_eq!(msg(parse_intent_response("{\"reasoning\":\"x\"}")), "parse error: need_agent must be a boolean");
    assert_eq!(msg(parse_intent_response("[1]")), "parse error: Invalid JSON structure: expected object");
    assert_eq!(
        msg(parse_intent_response(r#"{"need_agent":true,"steps":[{"tool_name":"t"}]}"#)),
        "parse error: Failed to parse steps: order is required"
    );
    assert_eq!(
        msg(parse_intent_response(r#"{"need_agent":true,"steps":[{"order":1}]}"#)),
        "parse error: Failed to parse steps: tool_name is required and must be a string"
    );
    assert_eq!(
        msg(parse_intent_response(r#"{"need_agent":true,"steps":[{"order":0,"tool_name":"t"}]}"#)),
        "parse error: Failed to parse steps: order 必须是 1-255 的数字"
    );
    assert_eq!(
        msg(parse_intent_response(r#"{"need_agent":true,"steps":[3]}"#)),
        "parse error: Failed to parse steps: steps[0] must be an object"
    );
    assert_eq!(
        msg(parse_intent_response(r#"{"need_agent":true,"steps":[{"order":1,"tool_name":"t","parameters":"x"}]}"#)),
        "parse error: Failed to parse steps: parameters must be a JSON object"
    );
}

#[test]
fn step_numbers_accept_one_level_of_array() {
    let v = parse_json("[[7]]").unwrap();
    assert_eq!(extract_u8(&v, "order"), Ok(7));
    let v = parse_json("256").unwrap();
    assert_eq!(extract_u8(&v, "order"), Err("order 必须是 1-255 的数字".to_string()));
    let v = parse_json("\"1\"").unwrap();
    assert_eq!(extract_u8(&v, "order"), Err("order 必须是数字或 null".to_string()));
    assert_eq!(extract_optional_u8(&parse_json("null").unwrap(), "d"), Ok(None));
    assert_eq!(extract_optional_u8(&parse_json("[]").unwrap(), "d"), Ok(None));
    assert_eq!(extract_optional_u8(&parse_json("[3]").unwrap(), "d"), Ok(Some(3)));
    assert_eq!(extract_optional_u8(&parse_json("{}").unwrap(), "d"), Err("d 必须是数字或 null".to_string()));
}

#[test]
fn tools_are_described_with_their_parameters() {
    let schema = parse_json(r#"{"type":"object","properties":{"q":{"type":"string","description":"关键词"},"n":{"type":"integer"},"x":{}}}"#).unwrap();
    assert_eq!(extract_params_info(&schema), "n: integer, q: 关键词 (string), x");
    let tools = vec![
        ToolDefinition::from_mcp("mcp__s__search", Some("搜索"), schema),
        ToolDefinition::from_mcp("mcp__s__ping", None, parse_json("{}").unwrap()),
    ];
    assert_eq!(
        build_tools_description(&tools),
        "- mcp__s__search: 搜索\n  参数: n: integer, q: 关键词 (string), x\n- mcp__s__ping: 无描述"
    );
    assert_eq!(
        build_intent_user_message(&tools[1..], "查天气"),
        "【可用工具】\n- mcp__s__ping: 无描述\n\n【用户请求】\n查天气"
    );
}

#[test]
fn replies_with_a_brace_far_before_the_json_are_refused() {
    assert!(!can_parse_intent_response("}} {"));
    assert!(can_parse_intent_response("}{"));
    assert!(can_parse_intent_response("{\"need_agent\":false}"));
}
