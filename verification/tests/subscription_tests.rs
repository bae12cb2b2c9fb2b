use kraken_ws_sdk::data::Channel;
use kraken_ws_sdk::error::SubscriptionError;
use kraken_ws_sdk::parser::JsonValue;
use kraken_ws_sdk::subscription::{subscription_key, SubscriptionManager};

fn s(t: &str) -> JsonValue {
    JsonValue::Str(t.to_string())
}

fn obj(fields: Vec<(&str, JsonValue)>) -> JsonValue {
    JsonValue::Object(fields.into_iter().map(|(k, v)| (k.to_string(), v)).collect())
}

fn status(st: &str, name: &str) -> JsonValue {
    obj(vec![
        ("event", s("subscriptionStatus")),
        ("status", s(st)),
        ("subscription", obj(vec![("name", s(name))])),
    ])
}

#[test]
fn subscribe_message_for_ticker_pairs() {
    let mut m = SubscriptionManager::new();
    let chans = vec![
        Channel::new("ticker").with_symbol("XBT/USD"),
        Channel::new("ticker").with_symbol("ETH/USD"),
        Channel::new("trade").with_symbol("XBT/USD"),
    ];
    let msg = m.create_subscription_message(&chans).unwrap();
    assert_eq!(msg, r#"{"event":"subscribe","pair":["XBT/USD","ETH/USD"],"subscription":{"name":"ticker"}}"#);
}

#[test]
fn subscribe_message_falls_back_to_trades() {
    let mut m = SubscriptionManager::new();
    let chans = vec![Channel::new("trade").with_symbol("XBT/USD"), Channel::new("book")];
    let msg = m.create_subscription_message(&chans).unwrap();
    assert_eq!(msg, r#"{"event":"subscribe","pair":["XBT/USD"],"subscription":{"name":"trade"}}"#);
}

#[test]
fn subscribe_errors() {
    let mut m = SubscriptionManager::new();
    match m.create_subscription_message(&[]) {
        Err(SubscriptionError::InvalidChannel(t)) => assert_eq!(t, "No channels provided"),
        other => panic!("unexpected {:?}", other),
    }
    match m.create_subscription_message(&[Channel::new("orders")]) {
        Err(SubscriptionError::InvalidChannel(t)) => assert_eq!(
            t,
            r#"Invalid channel name: orders. Valid channels: ["ticker", "ohlc", "trade", "book", "spread"]"#
        ),
        other => panic!("unexpected {:?}", other),
    }
    match m.create_subscription_message(&[Channel::new("ohlc").with_interval("7")]) {
        Err(SubscriptionError::InvalidChannel(t)) => assert_eq!(
            t,
            r#"Invalid OHLC interval: 7. Valid intervals: ["1", "5", "15", "30", "60", "240", "1440", "10080", "21600"]"#
        ),
        other => panic!("unexpected {:?}", other),
    }
    match m.create_subscription_message(&[Channel::new("book")]) {
        Err(SubscriptionError::InvalidChannel(t)) => assert_eq!(t, "No valid pairs found"),
        other => panic!("unexpected {:?}", other),
    }
}

#[test]
fn confirmation_activates_and_unsubscription_removes() {
    let mut m = SubscriptionManager::default();
    m.create_subscription_message(&[Channel::new("ticker").with_symbol("XBT/USD")]).unwrap();
    assert!(!m.is_subscribed(&Channel::new("ticker")));
    m.handle_subscription_confirmation(Ok(&status("subscribed", "ticker"))).unwrap();
    assert!(m.is_subscribed(&Channel::new("ticker")));
    m.handle_subscription_confirmation(Ok(&status("subscribed", "ticker"))).unwrap();
    assert_eq!(m.get_active_subscriptions(), vec!["ticker".to_string()]);
    m.handle_unsubscription_confirmation(Ok(&status("unsubscribed", "ticker"))).unwrap();
    assert!(!m.is_subscribed(&Channel::new("ticker")));
    assert!(m.get_active_subscriptions().is_empty());
}

#[test]
fn confirmation_errors() {
    let mut m = SubscriptionManager::new();
    let err = obj(vec![
        ("event", s("subscriptionStatus")),
        ("status", s("error")),
        ("errorMessage", s("Currency pair not supported")),
    ]);
    match m.handle_subscription_confirmation(Ok(&err)) {
        Err(SubscriptionError::SubscriptionFailed(t)) => assert_eq!(t, "Currency pair not supported"),
        other => panic!("unexpected {:?}", other),
    }
    let bare = obj(vec![("event", s("subscriptionStatus")), ("status", s("error"))]);
    match m.handle_subscription_confirmation(Ok(&bare)) {
        Err(SubscriptionError::SubscriptionFailed(t)) => assert_eq!(t, "Unknown subscription error"),
        other => panic!("unexpected {:?}", other),
    }
    match m.handle_subscription_confirmation(Err("expected value".to_string())) {
        Err(SubscriptionError::SubscriptionFailed(t)) => assert_eq!(t, "Invalid confirmation message: expected value"),
        other => panic!("unexpected {:?}", other),
    }
    assert!(m.handle_subscription_confirmation(Ok(&obj(vec![("event", s("heartbeat"))]))).is_ok());
}

#[test]
fn unsubscribe_message_needs_subscription() {
    let mut m = SubscriptionManager::new();
    let ch = Channel::new("ohlc").with_symbol("XBT/USD").with_interval("5");
    match m.create_unsubscription_message(&[ch.clone()]) {
        Err(SubscriptionError::NotSubscribed(t)) => assert_eq!(t, "Not subscribed to channel: ohlc"),
        other => panic!("unexpected {:?}", other),
    }
    m.handle_subscription_confirmation(Ok(&status("subscribed", "ohlc:XBT/USD:5"))).unwrap();
    let msg = m.unsubscription_message(&[ch.clone()], "req-1").unwrap();
    assert_eq!(
        msg,
        r#"{"event":"unsubscribe","pair":["XBT/USD"],"reqid":"req-1","subscription":{"interval":"5","name":"ohlc","symbol":"XBT/USD"}}"#
    );
    let fresh = m.create_unsubscription_message(&[ch]).unwrap();
    assert!(fresh.starts_with(r#"{"event":"unsubscribe","pair":["XBT/USD"],"reqid":""#));
}

#[test]
fn keys_join_name_symbol_interval() {
    assert_eq!(subscription_key(&Channel::new("ohlc").with_symbol("XBT/USD").with_interval("60")), "ohlc:XBT/USD:60");
    assert_eq!(subscription_key(&Channel::new("book")), "book");
}

#[test]
fn quoting_escapes_special_characters() {
    let mut m = SubscriptionManager::new();
    let msg = m.create_subscription_message(&[Channel::new("ticker").with_symbol("A\"B")]).unwrap();
    assert_eq!(msg, r#"{"event":"subscribe","pair":["A\"B"],"subscription":{"name":"ticker"}}"#);
}
