use agent_provider::providers::{anthropic_reply_of, ollama_reply_of};
use agent_provider::error::LlmError;
use agent_provider::llm_event::LlmStreamEvent;
use agent_provider::planner::{
    extract_json, plan_parse_error, replace_str, resolve_model, DefaultReactAgent, StagePrompt, TaskPrompt,
};
use agent_provider::providers::{
    anthropic_messages, anthropic_reply_text, anthropic_role, copy_message, join_url, model_or_default,
    ollama_messages, ollama_reply_text, openai_messages, plan_request_messages, role_str, split_system,
};
use agent_provider::stream_decode::{
    anthropic_event, FunctionDelta, LineBuffer, OllamaDecoder, OpenAiStreamState, ToolCallDelta,
};
use agent_provider::types::{BlockType, ChatMessage, Role, ToolCallItem};
use serde_json::Value;

fn json(text: &str) -> Value {
    serde_json::from_str(text).unwrap()
}

#[test]
fn line_buffer_cuts_complete_lines() {
    let mut b = LineBuffer::new();
    b.push("data: one\r\nda");
    assert_eq!(b.next_line(), Some("data: one".to_string()));
    assert_eq!(b.next_line(), None);
    b.push("ta: two\n\n");
    assert_eq!(b.next_line(), Some("data: two".to_string()));
    assert_eq!(b.next_line(), Some(String::new()));
    assert_eq!(b.next_line(), None);
}

#[test]
fn anthropic_lines() {
    let line = r#"data: {"type":"content_block_delta","delta":{"type":"text_delta","text":"Hi"}}"#;
    match anthropic_event(line) {
        Some(LlmStreamEvent::TextDelta { text }) => assert_eq!(text, "Hi"),
        other => panic!("unexpected {:?}", other),
    }
    assert!(anthropic_event(r#"data: {"type":"message_stop"}"#).is_none());
    assert!(anthropic_event("event: content_block_delta").is_none());
    assert!(anthropic_event("data: ").is_none());
    assert!(anthropic_event("data: {broken").is_none());
    assert!(anthropic_event(r#"data: {"type":"content_block_delta","delta":{"text":""}}"#).is_none());
}

#[test]
fn ollama_lines_yield_new_text() {
    let mut d = OllamaDecoder::new();
    let (ev, done) = d.on_line(r#"{"message":{"role":"assistant","content":"Hel"},"done":false}"#);
    assert!(!done);
    assert!(matches!(&ev[..], [LlmStreamEvent::TextDelta { text }] if text == "Hel"));
    let (ev, done) = d.on_line(r#"{"message":{"role":"assistant","content":"Hello"},"done":true}"#);
    assert!(done);
    assert_eq!(ev.len(), 2);
    assert!(matches!(&ev[0], LlmStreamEvent::TextDelta { text } if text == "lo"));
    assert!(matches!(ev[1], LlmStreamEvent::Done));
    let (ev, done) = d.on_line("   ");
    assert!(ev.is_empty() && !done);
    let (ev, _) = d.on_line("not json");
    assert!(ev.is_empty());
}

#[test]
fn openai_chunks_start_each_call_once() {
    let mut s = OpenAiStreamState::new();
    let ev = s.on_chunk(Some("Hi"), &[]);
    assert!(matches!(&ev[..], [LlmStreamEvent::TextDelta { text }] if text == "Hi"));
    let first = ToolCallDelta {
        index: 1,
        id: Some("call_9".to_string()),
        function: Some(FunctionDelta { name: Some("mcp__a__b".to_string()), arguments: Some("{\"x\"".to_string()) }),
    };
    let ev = s.on_chunk(None, &[first]);
    assert_eq!(ev.len(), 2);
    assert!(matches!(&ev[0], LlmStreamEvent::ToolCallStart { index: 1, id, name } if id == "call_9" && name == "mcp__a__b"));
    assert!(matches!(&ev[1], LlmStreamEvent::ToolCallDelta { index: 1, arguments } if arguments == "{\"x\""));
    let more = ToolCallDelta {
        index: 1,
        id: None,
        function: Some(FunctionDelta { name: Some("mcp__a__b".to_string()), arguments: Some(":1}".to_string()) }),
    };
    let ev = s.on_chunk(Some(""), &[more]);
    assert_eq!(ev.len(), 1);
    assert!(matches!(&ev[0], LlmStreamEvent::ToolCallDelta { index: 1, .. }));
    let end = s.on_end();
    assert_eq!(end.len(), 2);
    assert!(matches!(end[0], LlmStreamEvent::ToolCallDone { index: 1, .. }));
    assert!(matches!(end[1], LlmStreamEvent::Done));
    let fresh = OpenAiStreamState::new();
    let end = fresh.on_end();
    assert_eq!(end.len(), 1);
}

#[test]
fn planner_extracts_json() {
    assert_eq!(extract_json("```json\n{\"a\":1}\n```"), "{\"a\":1}");
    assert_eq!(extract_json("Here: {\"steps\": []} done"), "{\"steps\": []}");
    assert_eq!(extract_json("  no json  "), "no json");
    match plan_parse_error("TaskPlan", "eof", "{") {
        LlmError::ParseError(m) => assert_eq!(m, "Failed to parse TaskPlan JSON: eof\n--- response ---\n{"),
        other => panic!("unexpected {:?}", other),
    }
}

#[test]
fn planner_models_and_templates() {
    assert_eq!(resolve_model("gpt", Some("d")).unwrap(), "gpt");
    assert_eq!(resolve_model("", Some("d")).unwrap(), "d");
    assert!(matches!(resolve_model("", None), Err(LlmError::Config(m)) if m == "Model not set for LLM agent"));
    assert_eq!(replace_str("a{{X}}b{{X}}", "{{X}}", "1"), "a1b1");
    assert_eq!(replace_str("aaa", "aa", "b"), "ba");

    let mut p = StagePrompt::new();
    p.stage_goal = "搜索".to_string();
    p.stage_domain = "browser".to_string();
    p.available_tools = "mcp__browser__fill".to_string();
    let sys = p.build_system_prompt("goal={{STAGE_GOAL}}; domain={{STAGE_DOMAIN}}; tools={{AVAILABLE_TOOLS}}; prev={{PREVIOUS_STAGE_OUTPUTS}}");
    assert_eq!(sys, "goal=搜索; domain=browser; tools=mcp__browser__fill; prev=");
    let msgs = p.build_messages("{{STAGE_GOAL}}");
    assert_eq!(msgs.len(), 2);
    assert_eq!(msgs[1].content, "【Stage 目标】\n搜索");
    assert_eq!(p.rules_file_path("rules"), "rules/browser_rules.yaml");

    let mut t = TaskPrompt::new();
    t.available_domains = vec!["browser".to_string(), "fs".to_string()];
    t.conversation_context = "ctx".to_string();
    t.user_request = "do it".to_string();
    assert_eq!(t.build_system_prompt("[{{AVAILABLE_DOMAINS}}] {{CONVERSATION_CONTEXT}}"), "[browser, fs] ctx");
    let msgs = t.build_messages("x");
    assert_eq!(msgs[0].role, Role::System);
    assert_eq!(msgs[1].content, "【用户请求】\ndo it");
    assert!(matches!(DefaultReactAgent.run_step_error(), LlmError::NotImplemented(_)));
}

#[test]
fn provider_message_shapes() {
    let msgs = vec![
        ChatMessage::new(Role::System, "be brief"),
        ChatMessage::new(Role::User, "hi"),
        ChatMessage::new(Role::System, ""),
        ChatMessage::new(Role::System, "no lists"),
        ChatMessage::tool_result("c1", "t", "42"),
    ];
    let (system, rest) = split_system(&msgs);
    assert_eq!(system.as_deref(), Some("be brief\n\nno lists"));
    assert_eq!(rest.len(), 2);
    assert_eq!(rest[0].content, "hi");
    let (none, _) = split_system(&rest);
    assert!(none.is_none());

    assert!(anthropic_messages(&msgs).is_err());
    let sent = anthropic_messages(&rest).unwrap();
    assert_eq!(sent[0], json(r#"{"role":"user","content":"hi"}"#));
    assert_eq!(sent[1], json(r#"{"role":"user","content":"42"}"#));
    assert!(matches!(anthropic_role(Role::System), Err(LlmError::Config(_))));
    assert_eq!(anthropic_role(Role::Assistant).unwrap(), "assistant");

    let o = ollama_messages(&msgs[..2]);
    assert_eq!(o[0], json(r#"{"role":"system","content":"be brief"}"#));
    assert_eq!(role_str(Role::Tool), "tool");

    let mut call_msg = ChatMessage::new(Role::Assistant, "");
    call_msg.tool_calls = Some(vec![ToolCallItem { id: "c1".to_string(), name: "t".to_string(), arguments: "{}".to_string() }]);
    let copy = copy_message(&call_msg);
    assert_eq!(copy.tool_calls.as_ref().unwrap()[0].id, "c1");
    let oa = openai_messages(&[ChatMessage::new(Role::User, "q"), call_msg, ChatMessage::tool_result("c1", "t", "r")]);
    assert_eq!(oa, vec![(Role::User, "q".to_string()), (Role::Assistant, "[tool_calls]".to_string())]);
}

#[test]
fn provider_replies_and_urls() {
    assert_eq!(anthropic_reply_text(&json(r#"{"content":[{"type":"text","text":"ok"}]}"#)).unwrap(), "ok");
    assert!(matches!(anthropic_reply_text(&json(r#"{"content":[]}"#)), Err(LlmError::EmptyResponse)));
    assert!(matches!(anthropic_reply_text(&json(r#"{"content":[{"text":""}]}"#)), Err(LlmError::EmptyResponse)));
    assert_eq!(ollama_reply_text(&json(r#"{"message":{"role":"assistant","content":"yo"}}"#)).unwrap(), "yo");
    assert!(matches!(ollama_reply_text(&json(r#"{"message":{"content":""}}"#)), Err(LlmError::EmptyResponse)));
    assert!(matches!(ollama_reply_text(&json("{}")), Err(LlmError::EmptyResponse)));
    assert_eq!(join_url("http://localhost:11434//", "/api/chat"), "http://localhost:11434/api/chat");
    assert_eq!(join_url("http://h", "/v1"), "http://h/v1");
    assert_eq!(model_or_default("", None, "no model").unwrap_err().message(), "unsupported provider configuration: no model");
    assert_eq!(model_or_default("", Some("llama3"), "x").unwrap(), "llama3");
    let pr = plan_request_messages("查询");
    assert_eq!(pr.len(), 2);
    assert_eq!(pr[1].content, "查询");
}

#[test]
fn role_names_read_back() {
    for role in [Role::System, Role::User, Role::Assistant, Role::Tool] {
        assert_eq!(Role::from_str(role_str(role)), role);
    }
    assert_eq!(Role::from_str("moderator"), Role::User);
}

#[test]
fn block_type_names_read_back() {
    use_block_types();
}

fn use_block_types() {
    for b in [BlockType::Text, BlockType::Thinking, BlockType::Tool] {
        assert_eq!(BlockType::from_str(b.as_str()), b);
    }
    assert_eq!(BlockType::from_str("THINKING"), BlockType::Thinking);
    assert_eq!(BlockType::from_str("image"), BlockType::Text);
}

#[test]
fn whole_replies_are_read_from_their_text() {
    assert_eq!(ollama_reply_of(r#"{"message":{"role":"assistant","content":"hi"}}"#).unwrap(), "hi");
    assert!(matches!(ollama_reply_of(r#"{"message":{"content":""}}"#), Err(LlmError::EmptyResponse)));
    assert!(matches!(ollama_reply_of("not json"), Err(LlmError::Json(m)) if !m.is_empty()));
    assert_eq!(anthropic_reply_of(r#"{"content":[{"type":"text","text":"ok"}]}"#).unwrap(), "ok");
    assert!(matches!(anthropic_reply_of("{"), Err(LlmError::Json(_))));
    assert!(matches!(anthropic_reply_of("{}"), Err(LlmError::EmptyResponse)));
}
