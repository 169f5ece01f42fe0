use agent_provider::mcp::TransportConfig;
use agent_provider::mcp_error::McpError;
use agent_provider::circuit::{CircuitBreaker, CircuitBreakerConfig};
use agent_provider::mcp::{
    died_event, is_batch_extension, is_connection_error_message, merge_search_paths, reconnect_backoff_secs,
    status_of, ConnectionTransport, HeartbeatAction, HeartbeatConfig, HeartbeatMonitor, McpEvent, McpServerConfig,
    PendingOps, QueueItem, ReconnectAttempts, StdioProcessManager,
};
use std::time::Duration;

#[test]
fn backoff_doubles_up_to_sixty() {
    let waits: Vec<u64> = (0..8).map(reconnect_backoff_secs).collect();
    assert_eq!(waits, vec![1, 2, 4, 8, 16, 32, 60, 60]);
    assert_eq!(reconnect_backoff_secs(63), 60);
}

#[test]
fn reconnect_attempts_are_limited() {
    let config = HeartbeatConfig::default();
    assert_eq!(config.interval, Duration::from_secs(30));
    assert_eq!(config.check_interval, Duration::from_millis(100));
    let mut attempts = ReconnectAttempts::new(&config);
    assert_eq!(attempts.next_attempt(), Some(1));
    assert_eq!(attempts.next_attempt(), Some(2));
    assert_eq!(attempts.next_attempt(), Some(3));
    assert_eq!(attempts.next_attempt(), None);
    assert_eq!(attempts.backoff_after(2), 4);
    match attempts.outcome_event("srv", false) {
        McpEvent::ReconnectFailed { name, error } => {
            assert_eq!(name, "srv");
            assert_eq!(error, "max auto-reconnect attempts exceeded");
        }
        other => panic!("unexpected {:?}", other),
    }
    assert!(matches!(attempts.outcome_event("srv", true), McpEvent::Reconnected { .. }));
    let off = HeartbeatConfig { auto_reconnect: false, ..HeartbeatConfig::default() };
    assert_eq!(ReconnectAttempts::new(&off).next_attempt(), None);
}

#[test]
fn heartbeat_decisions() {
    let config = HeartbeatConfig::default();
    let mut m = HeartbeatMonitor::new(&config);
    assert_eq!(m.on_tick(true, true, true), HeartbeatAction::Wait);
    assert_eq!(m.on_tick(true, true, false), HeartbeatAction::Reconnect);
    assert_eq!(m.consecutive_failures, 1);
    assert_eq!(m.on_reconnect(true), HeartbeatAction::Wait);
    assert_eq!(m.consecutive_failures, 0);
    assert_eq!(m.on_tick(true, false, false), HeartbeatAction::Wait);
    assert_eq!(m.on_tick(false, true, false), HeartbeatAction::Stop);
    assert_eq!(m.on_reconnect(false), HeartbeatAction::Stop);
    let off = HeartbeatConfig { auto_reconnect: false, ..HeartbeatConfig::default() };
    let mut m = HeartbeatMonitor::new(&off);
    assert_eq!(m.on_tick(true, true, false), HeartbeatAction::ReportDisconnected);
    match died_event("srv") {
        McpEvent::Disconnected { reason, .. } => assert_eq!(reason, "heartbeat detected connection died"),
        other => panic!("unexpected {:?}", other),
    }
}

#[test]
fn circuit_breaker_opens_after_threshold() {
    let mut cb = CircuitBreaker::new(CircuitBreakerConfig::default());
    assert!(cb.allow_request());
    cb.record_failure();
    cb.record_failure();
    assert!(!cb.is_open());
    cb.record_failure();
    assert!(cb.is_open());
    assert_eq!(cb.failure_count(), 3);
    assert!(!cb.allow_request_after(false));
    assert!(cb.allow_request_after(true));
    assert!(!cb.is_open());
    cb.record_failure();
    assert!(cb.is_open());
    cb.record_success();
    assert!(!cb.is_open());
    assert_eq!(cb.failure_count(), 0);
    cb.record_failure();
    cb.reset();
    assert_eq!(cb.failure_count(), 0);
}

#[test]
fn status_reports_health() {
    let mut cb = CircuitBreaker::new(CircuitBreakerConfig { failure_threshold: 1, cooldown: Duration::from_secs(5) });
    let http = ConnectionTransport::Http { url: "http://x".to_string() };
    let s = status_of("srv", &http, true, &cb);
    assert_eq!((s.transport_type.as_str(), s.health.as_str(), s.circuit_open), ("http", "connected", false));
    let s = status_of("srv", &http, false, &cb);
    assert_eq!(s.health, "disconnected");
    cb.record_failure();
    let stdio = ConnectionTransport::Stdio { command: "npx".to_string(), args: vec![], env: vec![] };
    let s = status_of("srv", &stdio, false, &cb);
    assert_eq!((s.transport_type.as_str(), s.health.as_str(), s.circuit_open, s.fail_count), ("stdio", "failed", true, 1));
}

#[test]
fn connection_errors_are_recognised() {
    assert!(is_connection_error_message("Connection reset by peer"));
    assert!(is_connection_error_message("transport CLOSED"));
    assert!(is_connection_error_message("IO Error: broken pipe"));
    assert!(is_connection_error_message("request Timeout"));
    assert!(!is_connection_error_message("invalid params"));
}

#[test]
fn server_configs() {
    let c = McpServerConfig::new_stdio("id1", "Files", "npx", vec!["-y".to_string(), "pkg".to_string(), "x".to_string()]);
    assert!(c.is_stdio());
    assert!(!c.is_http());
    assert_eq!(c.get_stdio_command(), Some("npx"));
    let h = McpServerConfig::new_http("id2", "Web", "http://h/mcp");
    assert!(h.is_http());
    assert_eq!(h.get_stdio_command(), None);
    let args = vec!["-y".to_string(), "pkg".to_string(), "x".to_string()];
    assert_eq!(StdioProcessManager::version_args(&args), vec!["-y", "pkg", "--version"]);
    assert_eq!(StdioProcessManager::version_args(&[]), vec!["--version"]);
}

#[test]
fn pending_ops_are_fifo_per_server() {
    let mut ops = PendingOps::new();
    assert!(!ops.is_processing("a"));
    ops.enqueue(QueueItem::Stop { id: "a".to_string() });
    ops.enqueue(QueueItem::Reconnect { id: "b".to_string() });
    ops.enqueue(QueueItem::Remove { id: "a".to_string() });
    assert!(ops.is_processing("a"));
    assert!(ops.is_processing("b"));
    ops.mark_done("a");
    assert!(ops.is_processing("a"));
    ops.mark_done("a");
    assert!(!ops.is_processing("a"));
    ops.remove_pending("b");
    assert!(!ops.is_processing("b"));
    let item = QueueItem::Create { id: "c".to_string(), config: McpServerConfig::new_http("c", "C", "u") };
    assert_eq!(item.server_id(), "c");
    assert!(item.config().is_some());
    assert!(QueueItem::Stop { id: "c".to_string() }.config().is_none());
}

#[test]
fn search_paths_merge_without_duplicates() {
    let key = vec!["C:\\npm".to_string(), "C:\\node".to_string()];
    let current = vec!["C:\\bin".to_string(), "C:\\npm".to_string(), "C:\\bin".to_string()];
    assert_eq!(merge_search_paths(key, &current), vec!["C:\\npm", "C:\\node", "C:\\bin"]);
    assert!(is_batch_extension(".CMD"));
    assert!(is_batch_extension(".bat"));
    assert!(!is_batch_extension(".exe"));
    assert!(!is_batch_extension(""));
}

#[test]
fn mcp_error_texts_and_kinds() {
    let closed = McpError::ConnectionClosed { name: "srv".to_string(), reason: "eof".to_string() };
    assert_eq!(closed.text(), "connection closed for 'srv': eof");
    assert!(closed.is_connection_error());
    assert_eq!(closed.server_name(), Some("srv"));
    let open = McpError::CircuitOpen { name: "srv".to_string() };
    assert!(open.is_circuit_open());
    assert!(!open.is_connection_error());
    assert_eq!(open.text(), "MCP server 'srv' circuit breaker is open");
    let nested = McpError::Connection { name: "a".to_string(), source: Box::new(McpError::Transport("refused".to_string())) };
    assert_eq!(nested.text(), "connection failed for 'a': transport error: refused");
    assert_eq!(nested.server_name(), Some("a"));
    assert!(!nested.is_connection_error());
    assert!(McpError::Io("x".to_string()).is_connection_error());
    assert!(McpError::Service("x".to_string()).is_connection_error());
    assert_eq!(McpError::Serde("bad".to_string()).server_name(), None);
    assert_eq!(McpError::ToolCallTimeout { name: "t".to_string() }.text(), "tool call timeout for 't'");
    assert_eq!(McpError::NotFound("p".to_string()).text(), "MCP server 'p' not found in pool");
}

#[test]
fn zero_cooldown_breaker_lets_the_next_request_through() {
    let mut cb = CircuitBreaker::new(CircuitBreakerConfig { failure_threshold: 1, cooldown: Duration::from_secs(0) });
    cb.record_failure();
    assert!(cb.is_open());
    assert!(cb.allow_request());
    assert!(!cb.is_open());
    assert!(cb.allow_request());
    let mut fresh = CircuitBreaker::new(CircuitBreakerConfig::default());
    assert!(fresh.allow_request());
    assert!(!fresh.is_open());
    assert_eq!(fresh.failure_count(), 0);
}

#[test]
fn transport_config_names_its_transport() {
    assert_eq!(TransportConfig::Stdio { command: "npx".to_string(), args: vec![] }.transport_type(), "stdio");
    assert_eq!(TransportConfig::Http { url: "http://h".to_string() }.transport_type(), "http");
}
