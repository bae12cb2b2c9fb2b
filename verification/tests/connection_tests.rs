use kraken_ws_sdk::connection::{
    auth_message, authenticate, check_credentials, first_reconnect_step, health_at, reconnect_step, retry_after,
    validate_auth_response, PingMonitor, ReconnectStep,
};
use kraken_ws_sdk::error::ConnectionError;
use kraken_ws_sdk::parser::JsonValue;

fn s(t: &str) -> JsonValue {
    JsonValue::Str(t.to_string())
}

fn obj(fields: Vec<(&str, JsonValue)>) -> JsonValue {
    JsonValue::Object(fields.into_iter().map(|(k, v)| (k.to_string(), v)).collect())
}

#[test]
fn health_from_ping_and_pong() {
    assert!(health_at(None, None, 5));
    assert!(!health_at(Some(1), None, 5));
    assert!(!health_at(None, Some(1), 5));
    assert!(health_at(Some(10), Some(20), 30));
    assert!(!health_at(Some(20), Some(10), 30));
    assert!(!health_at(Some(0), Some(1), 60_000_000));
    let mut m = PingMonitor::new();
    assert!(m.is_healthy());
    m.update_ping();
    assert!(!m.is_healthy());
    m.update_pong();
    assert!(m.is_healthy());
}

#[test]
fn credentials_and_auth_replies() {
    assert!(matches!(check_credentials("", "s"), Err(ConnectionError::AuthenticationFailed(_))));
    assert!(check_credentials("k", "s").is_ok());
    let ok = obj(vec![("event", s("subscriptionStatus")), ("status", s("subscribed"))]);
    assert!(matches!(validate_auth_response(Ok(&ok)), Ok(true)));
    let err = obj(vec![("event", s("subscriptionStatus")), ("status", s("error"))]);
    match validate_auth_response(Ok(&err)) {
        Err(ConnectionError::AuthenticationFailed(m)) => assert_eq!(m, "Authentication failed"),
        other => panic!("unexpected {:?}", other),
    }
    assert!(matches!(validate_auth_response(Ok(&obj(vec![("event", s("heartbeat"))]))), Ok(false)));
    match validate_auth_response(Err("eof".to_string())) {
        Err(ConnectionError::AuthenticationFailed(m)) => assert_eq!(m, "Invalid auth response: eof"),
        other => panic!("unexpected {:?}", other),
    }
    assert!(!retry_after(&ConnectionError::AuthenticationFailed("x".to_string())));
    assert!(retry_after(&ConnectionError::Timeout("x".to_string())));
}

#[test]
fn auth_message_subscribes_to_own_trades() {
    let m = auth_message("key", "secret", 123, "req-1").unwrap();
    assert_eq!(
        m,
        "{\"event\":\"subscribe\",\"reqid\":\"req-1\",\"subscription\":{\"name\":\"ownTrades\",\"token\":\"eyJhcGlfa2V5Ijoia2V5Iiwibm9uY2UiOiIxMjMifQ==\"}}"
    );
    match auth_message("", "secret", 1, "r") {
        Err(ConnectionError::AuthenticationFailed(t)) => assert_eq!(t, "API key and secret are required for authentication"),
        other => panic!("unexpected {:?}", other),
    }
    let a = authenticate("key", "secret", 123).unwrap();
    assert!(a.starts_with("{\"event\":\"subscribe\",\"reqid\":\""));
    assert!(a.ends_with("\"token\":\"eyJhcGlfa2V5Ijoia2V5Iiwibm9uY2UiOiIxMjMifQ==\"}}"));
    assert!(authenticate("key", "", 123).is_err());
}

#[test]
fn reconnect_steps() {
    assert!(matches!(first_reconnect_step(3), ReconnectStep::Attempt { attempt: 1, wait: false }));
    match first_reconnect_step(0) {
        ReconnectStep::GiveUp(ConnectionError::EstablishmentFailed(m)) => assert_eq!(m, "All reconnection attempts failed"),
        other => panic!("unexpected {:?}", other),
    }
    let timeout = ConnectionError::Timeout("t".to_string());
    assert!(matches!(reconnect_step(1, 3, timeout.clone()), ReconnectStep::Attempt { attempt: 2, wait: true }));
    assert!(matches!(
        reconnect_step(3, 3, timeout),
        ReconnectStep::GiveUp(ConnectionError::EstablishmentFailed(_))
    ));
    match reconnect_step(1, 3, ConnectionError::AuthenticationFailed("bad key".to_string())) {
        ReconnectStep::GiveUp(ConnectionError::AuthenticationFailed(m)) => assert_eq!(m, "bad key"),
        other => panic!("unexpected {:?}", other),
    }
}
