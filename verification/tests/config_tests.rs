use kraken_ws_sdk::data::{check_client_settings, ConnectionConfig};
use kraken_ws_sdk::json_text::quote;
use kraken_ws_sdk::telemetry::TelemetryConfig;
use kraken_ws_sdk::text::is_whitespace;
use std::time::Duration;

#[test]
fn client_settings_checks_in_order() {
    let t = Duration::from_secs(30);
    assert_eq!(check_client_settings("wss://ws.kraken.com", 1000, &t), Ok(()));
    assert_eq!(check_client_settings("", 1000, &t), Err("Endpoint cannot be empty".to_string()));
    assert_eq!(check_client_settings("http://x", 1000, &t), Err("Endpoint must be a valid WebSocket URL".to_string()));
    assert_eq!(check_client_settings("ws://x", 0, &t), Err("Buffer size must be greater than 0".to_string()));
    assert_eq!(
        check_client_settings("ws://x", 1, &Duration::from_millis(999)),
        Err("Timeout must be greater than 0".to_string())
    );
}

#[test]
fn default_durations() {
    assert_eq!(TelemetryConfig::default().export_interval, Duration::from_secs(60));
    let c = ConnectionConfig::default();
    assert_eq!(c.timeout, Duration::from_secs(30));
    assert_eq!(c.ping_interval, Duration::from_secs(30));
}

#[test]
fn strings_are_quoted_with_escapes() {
    assert_eq!(quote("a\"b\\c\n\u{1}\u{7f}é"), "\"a\\\"b\\\\c\\n\\u0001\u{7f}é\"");
    assert_eq!(quote("\u{8}\u{c}\t\r"), "\"\\b\\f\\t\\r\"");
}

#[test]
fn whitespace_is_the_unicode_list() {
    for c in ['\t', '\n', ' ', '\u{85}', '\u{a0}', '\u{2003}', '\u{3000}'] {
        assert!(is_whitespace(c));
    }
    for c in ['a', '\u{200b}', '\u{1c}'] {
        assert!(!is_whitespace(c));
    }
}
