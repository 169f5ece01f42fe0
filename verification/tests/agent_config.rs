use std::time::Duration;
use agent_provider::agent_config::AgentConfig;

#[test]
fn test_agent_config_default() {
    let config = AgentConfig::default();
    assert_eq!(config.max_steps, 10);
    assert_eq!(config.timeout_per_step, Duration::from_secs(60));
    assert_eq!(config.timeout_total, Duration::from_secs(300));
}

#[test]
fn test_agent_config_builder() {
    let config = AgentConfig::new().with_max_steps(20).with_timeout_total(Duration::from_secs(600));
    assert_eq!(config.max_steps, 20);
    assert_eq!(config.timeout_total, Duration::from_secs(600));
}

#[test]
fn default_thresholds_and_policies() {
    let config = AgentConfig::new();
    assert_eq!(config.empty_response_threshold, 3);
    assert_eq!(config.error_threshold, 5);
    assert!(!config.continue_on_empty);
    assert!(config.continue_on_tool_error);
}

#[test]
fn builders_set_one_field_each() {
    let config = AgentConfig::new()
        .with_timeout_per_step(Duration::from_secs(5))
        .with_empty_threshold(7)
        .with_error_threshold(9)
        .continue_on_empty(true)
        .continue_on_tool_error(false);
    assert_eq!(config.max_steps, 10);
    assert_eq!(config.timeout_per_step, Duration::from_secs(5));
    assert_eq!(config.timeout_total, Duration::from_secs(300));
    assert_eq!(config.empty_response_threshold, 7);
    assert_eq!(config.error_threshold, 9);
    assert!(config.continue_on_empty);
    assert!(!config.continue_on_tool_error);
}
