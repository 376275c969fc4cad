use rapina::observability::{Level, TracingConfig};

#[test]
fn test_tracing_config_default() {
    let config = TracingConfig::default();
    assert!(!config.json);
    assert_eq!(config.level, Level::INFO);
    assert!(config.with_target);
    assert!(!config.with_file);
    assert!(!config.with_line_number);
}

#[test]
fn test_tracing_config_new() {
    let config = TracingConfig::new();
    assert!(!config.json);
}

#[test]
fn test_tracing_config_json() {
    let config = TracingConfig::new().json();
    assert!(config.json);
}

#[test]
fn test_tracing_config_level() {
    let config = TracingConfig::new().level(Level::DEBUG);
    assert_eq!(config.level, Level::DEBUG);
}

#[test]
fn test_tracing_config_builder_chain() {
    let config = TracingConfig::new()
        .json()
        .level(Level::TRACE)
        .with_target(false)
        .with_file(true)
        .with_line_number(true);

    assert!(config.json);
    assert_eq!(config.level, Level::TRACE);
    assert!(!config.with_target);
    assert!(config.with_file);
    assert!(config.with_line_number);
}

#[test]
fn default_filter_names_the_level() {
    assert_eq!(TracingConfig::new().default_filter(), "INFO");
    assert_eq!(TracingConfig::new().level(Level::WARN).default_filter(), "WARN");
}
