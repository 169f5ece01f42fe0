use agent_provider::tools::{build_mcp_tool_name, parse_mcp_tool_name};

#[test]
fn test_parse_mcp_tool_name() {
    assert_eq!(parse_mcp_tool_name("mcp__playwright__goto"), Some(("playwright", "goto")));
    assert_eq!(parse_mcp_tool_name("mcp__browser__navigate"), Some(("browser", "navigate")));
    assert_eq!(parse_mcp_tool_name("playwright__goto"), None);
    assert_eq!(parse_mcp_tool_name("invalid"), None);
}

#[test]
fn test_parse_mcp_tool_name_multi_underscore() {
    assert_eq!(parse_mcp_tool_name("mcp__a__b__c"), None);
}

#[test]
fn test_build_mcp_tool_name() {
    assert_eq!(build_mcp_tool_name("playwright", "goto"), "mcp__playwright__goto");
    assert_eq!(build_mcp_tool_name("fs", "read_file"), "mcp__fs__read_file");
}

#[test]
fn parse_then_build_gives_back_the_name() {
    let name = "mcp__fs__read_file";
    let (server, tool) = parse_mcp_tool_name(name).unwrap();
    assert_eq!(build_mcp_tool_name(server, tool), name);
}

#[test]
fn build_then_parse_gives_back_the_parts() {
    let name = build_mcp_tool_name("browser", "snapshot");
    assert_eq!(parse_mcp_tool_name(&name), Some(("browser", "snapshot")));
}

#[test]
fn empty_parts_are_kept() {
    assert_eq!(parse_mcp_tool_name("mcp____"), Some(("", "")));
    assert_eq!(parse_mcp_tool_name("mcp__"), None);
}
