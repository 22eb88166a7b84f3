use badge_access_simulator::simulation::logging::{LogLevel, LoggingConfig};

#[test]
fn test_logging_config_creation() {
    let config = LoggingConfig::new();
    assert_eq!(config.level, LogLevel::Info);
    assert!(!config.json_format);
    assert!(!config.log_to_file);
    assert!(config.log_directory.is_none());
    assert_eq!(config.log_file_prefix, "badge-access-simulator");
    assert!(!config.enable_span_events);
    assert!(config.enable_ansi);
    assert!(config.env_filter.is_none());
}

#[test]
fn test_logging_config_builder_pattern() {
    let config = LoggingConfig::new()
        .with_level(LogLevel::Debug)
        .with_json_format()
        .with_file_logging("test_logs")
        .with_file_prefix("test_prefix")
        .with_span_events()
        .without_ansi()
        .with_env_filter("debug");

    assert_eq!(config.level, LogLevel::Debug);
    assert!(config.json_format);
    assert!(config.log_to_file);
    assert_eq!(config.log_directory, Some("test_logs".to_string()));
    assert_eq!(config.log_file_prefix, "test_prefix");
    assert!(config.enable_span_events);
    assert!(!config.enable_ansi);
    assert_eq!(config.env_filter, Some("debug".to_string()));
}

#[test]
fn test_default_logging_config() {
    let config = LoggingConfig::default();
    assert_eq!(config.level, LogLevel::Info);
    assert!(!config.json_format);
    assert!(!config.log_to_file);
}
