use deconet::config::Configuration;
use deconet::errors::CryptoError;
use deconet::error_handling::{handle_custom_error, parse_int_and_chain_error, propagate_custom_error, CustomError};
use deconet::helpers::{add, divide, is_even, is_odd, multiply, subtract};
use deconet::logging::{audit_tag, format_log_line, level_tag, AuditEvent, LogLevel};
use deconet::parse::{parse_bool, parse_i32};
use deconet::routing::RoutingTable;
use deconet::xorcipher;

#[test]
fn helper_arithmetic() {
    assert_eq!(add(5, 3), 8);
    assert_eq!(subtract(5, 3), 2);
    assert_eq!(multiply(5, 3), 15);
    assert_eq!(divide(6, 3), Ok(2));
    assert_eq!(divide(-7, 2), Ok(-3));
    assert_eq!(divide(7, -2), Ok(-3));
    assert_eq!(divide(-7, -2), Ok(3));
    assert_eq!(divide(1, 0), Err("Division by zero"));
    assert!(!is_even(5));
    assert!(is_odd(5));
    assert!(is_even(4));
}

#[test]
fn parsing_integers() {
    assert_eq!(parse_i32("0"), Some(0));
    assert_eq!(parse_i32("42"), Some(42));
    assert_eq!(parse_i32("-42"), Some(-42));
    assert_eq!(parse_i32("+42"), Some(42));
    assert_eq!(parse_i32("2147483647"), Some(i32::MAX));
    assert_eq!(parse_i32("-2147483648"), Some(i32::MIN));
    assert_eq!(parse_i32("2147483648"), None);
    assert_eq!(parse_i32("-2147483649"), None);
    assert_eq!(parse_i32("99999999999999999999"), None);
    assert_eq!(parse_i32(""), None);
    assert_eq!(parse_i32("-"), None);
    assert_eq!(parse_i32("12a"), None);
    assert_eq!(parse_i32("not a number"), None);
    assert_eq!(parse_i32("0007"), Some(7));
}

#[test]
fn parsing_booleans() {
    assert_eq!(parse_bool("true"), Some(true));
    assert_eq!(parse_bool("false"), Some(false));
    assert_eq!(parse_bool("True"), None);
    assert_eq!(parse_bool(""), None);
}

#[test]
fn custom_errors_carry_their_messages() {
    match handle_custom_error().unwrap_err() {
        CustomError::Custom(m) => assert_eq!(m, "Custom error message"),
        other => panic!("unexpected error: {:?}", other),
    }
    match parse_int_and_chain_error("7").unwrap_err() {
        CustomError::Parse(m) => assert_eq!(m, "invalid integer"),
        other => panic!("unexpected error: {:?}", other),
    }
    match propagate_custom_error().unwrap_err() {
        CustomError::Custom(m) => assert_eq!(m, "Custom error message"),
        other => panic!("unexpected error: {:?}", other),
    }
}

#[test]
fn configuration_updates_and_merge() {
    let mut config = Configuration::load_default();
    assert_eq!(config.server_address, "localhost");
    assert_eq!(config.port, 8080);
    assert_eq!(config.max_connections, 100);
    config.update_server_address("new_address".to_string());
    config.update_port(9090);
    config.update_max_connections(5);
    assert_eq!(config.server_address, "new_address");
    let defaults = Configuration::load_default();
    config.merge(&defaults);
    assert_eq!(config.server_address, "localhost");
    assert_eq!(config.port, 8080);
    assert_eq!(config.max_connections, 100);
}

#[test]
fn routing_table_operations() {
    let mut table = RoutingTable::new();
    table.add_entry("192.168.1.0", "192.168.1.1", "eth0");
    table.add_entry("10.0.0.0", "10.0.0.1", "eth1");
    assert_eq!(table.get_entries().len(), 2);
    let entry = table.get_entry("192.168.1.0").unwrap();
    assert_eq!(entry.gateway, "192.168.1.1");
    assert_eq!(entry.interface, "eth0");

    table.add_entry("192.168.1.0", "192.168.1.254", "eth2");
    assert_eq!(table.get_entries().len(), 2);
    assert_eq!(table.get_entry("192.168.1.0").unwrap().gateway, "192.168.1.254");

    let untouched = table.get_entry("10.0.0.0").unwrap();
    assert_eq!(untouched.gateway, "10.0.0.1");
    assert_eq!(untouched.interface, "eth1");

    table.remove_entry("192.168.1.0");
    assert!(table.get_entry("192.168.1.0").is_none());
    assert_eq!(table.get_entries().len(), 1);
    assert_eq!(table.get_entry("10.0.0.0").unwrap().gateway, "10.0.0.1");

    table.remove_entry("192.168.1.0");
    assert_eq!(table.get_entries().len(), 1);
    assert_eq!(table.get_entry("10.0.0.0").unwrap().gateway, "10.0.0.1");

    table.clear_entries();
    assert_eq!(table.get_entries().len(), 0);
}

#[test]
fn xor_stream_round_trips() {
    let key = xorcipher::generate_key();
    assert_eq!(key, vec![1, 2, 3, 4, 5]);
    let data = b"Hello, world!";
    let encrypted = xorcipher::encrypt_data(data, &key);
    assert_ne!(encrypted, data.to_vec());
    let decrypted = xorcipher::decrypt_data(&encrypted, &key);
    assert_eq!(decrypted, data.to_vec());
}

#[test]
fn log_lines_carry_their_level() {
    assert_eq!(level_tag(&LogLevel::Info), "INFO");
    assert_eq!(level_tag(&LogLevel::Warning), "WARNING");
    assert_eq!(level_tag(&LogLevel::Error), "ERROR");
    assert_eq!(
        format_log_line(&LogLevel::Error, "disk on fire"),
        "ERROR: disk on fire"
    );
}

#[test]
fn audit_events_have_stable_tags() {
    assert_eq!(audit_tag(&AuditEvent::AuthSuccess), "AuthSuccess");
    assert_eq!(audit_tag(&AuditEvent::AuthFailure), "AuthFailure");
    assert_eq!(audit_tag(&AuditEvent::TokenIssued), "TokenIssued");
    assert_eq!(audit_tag(&AuditEvent::TokenRevoked), "TokenRevoked");
    assert_eq!(audit_tag(&AuditEvent::KeyRotated), "KeyRotated");
    assert_eq!(audit_tag(&AuditEvent::DecryptFailed), "DecryptFailed");
}

#[test]
fn error_messages_are_stable() {
    assert_eq!(CryptoError::InvalidCredentials.message(), "invalid credentials");
    assert_eq!(
        CryptoError::AuthenticationTagMismatch.message(),
        "authentication tag mismatch"
    );
}
