use deconet::settings::{parse_setting, validate_configuration, Configuration, ConfigurationError};

#[test]
fn settings_are_stored_and_replaced() {
    let mut config = Configuration::new();
    assert_eq!(config.len(), 0);
    config.set_setting("port", "8080");
    config.set_setting("host", "localhost");
    assert_eq!(config.len(), 2);
    assert!(config.has_setting("port"));
    assert!(!config.has_setting("user"));
    assert_eq!(config.get_setting("host").unwrap(), "localhost");

    config.set_setting("port", "9090");
    assert_eq!(config.len(), 2);
    assert_eq!(config.get_setting("port").unwrap(), "9090");

    config.clear_settings();
    assert_eq!(config.len(), 0);
    assert!(!config.has_setting("port"));
}

#[test]
fn merge_prefers_the_other_configuration() {
    let mut base = Configuration::new();
    base.set_setting("port", "8080");
    base.set_setting("host", "localhost");
    let mut update = Configuration::new();
    update.set_setting("port", "9090");
    update.set_setting("debug", "true");
    base.merge(&update);
    assert_eq!(base.get_setting("port").unwrap(), "9090");
    assert_eq!(base.get_setting("host").unwrap(), "localhost");
    assert_eq!(base.get_setting("debug").unwrap(), "true");
    assert_eq!(base.len(), 3);
}

#[test]
fn typed_parsing_of_settings() {
    let mut config = Configuration::new();
    config.set_setting("port", "8080");
    config.set_setting("debug", "true");
    config.set_setting("name", "server");
    assert_eq!(config.parse_int("port"), Some(8080));
    assert_eq!(config.parse_int("name"), None);
    assert_eq!(config.parse_int("missing"), None);
    assert_eq!(config.parse_bool("debug"), Some(true));
    assert_eq!(config.parse_bool("port"), None);
    assert!(config.validate());
    config.apply();
    assert_eq!(config.get_all_settings().len(), 3);
}

#[test]
fn validation_checks_the_port() {
    let mut config = Configuration::new();
    assert!(validate_configuration(&config).is_ok());
    config.set_setting("port", "8080");
    assert!(validate_configuration(&config).is_ok());
    config.set_setting("port", "not a port");
    match validate_configuration(&config).unwrap_err() {
        ConfigurationError::ValidationFailed(m) => assert_eq!(m, "Invalid port value"),
        other => panic!("unexpected error: {:?}", other),
    }
}

#[test]
fn setting_values_report_parse_failures() {
    assert_eq!(parse_setting("42").unwrap(), 42);
    match parse_setting("x42").unwrap_err() {
        ConfigurationError::InvalidValue(m) => assert_eq!(m, "x42"),
        other => panic!("unexpected error: {:?}", other),
    }
}
