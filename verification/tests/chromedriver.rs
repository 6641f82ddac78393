use chrome_for_testing::chromedriver::LogLevel;

#[test]
fn log_levels_render_in_upper_case() {
    assert_eq!(LogLevel::All.to_string(), "ALL");
    assert_eq!(LogLevel::Debug.to_string(), "DEBUG");
    assert_eq!(LogLevel::Info.to_string(), "INFO");
    assert_eq!(LogLevel::Warning.to_string(), "WARNING");
    assert_eq!(LogLevel::Severe.to_string(), "SEVERE");
    assert_eq!(LogLevel::Off.to_string(), "OFF");
}

#[test]
fn log_level_defaults_to_info() {
    assert_eq!(LogLevel::default(), LogLevel::Info);
    assert_eq!(format!("--log-level={}", LogLevel::default().to_string()), "--log-level=INFO");
}
