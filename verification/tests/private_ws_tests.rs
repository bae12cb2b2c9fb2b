use kraken_ws_sdk::parser::JsonValue;
use kraken_ws_sdk::private_ws::{
    next_reconnect, read_private_message, subscribe_message, subscription_messages, OrderUpdate, PrivateChannel,
    PrivateMessage, PrivateState, PrivateWsConfig,
};
use kraken_ws_sdk::trading::{OrderSide, OrderStatus};
use rust_decimal::Decimal;
use std::str::FromStr;

fn s(t: &str) -> JsonValue {
    JsonValue::Str(t.to_string())
}

fn obj(fields: Vec<(&str, JsonValue)>) -> JsonValue {
    JsonValue::Object(fields.into_iter().map(|(k, v)| (k.to_string(), v)).collect())
}

#[test]
fn config_defaults_and_channels() {
    let c = PrivateWsConfig::new("tok".to_string());
    assert_eq!(c.channels, vec![PrivateChannel::OwnTrades, PrivateChannel::OpenOrders]);
    assert!(c.auto_reconnect);
    assert_eq!(c.max_reconnect_attempts, 10);
    let c = c.with_channels(vec![PrivateChannel::OpenOrders]);
    assert_eq!(c.channels, vec![PrivateChannel::OpenOrders]);
    assert_eq!(subscription_messages(&c).len(), 1);
}

#[test]
fn subscribe_message_text() {
    assert_eq!(
        subscribe_message(PrivateChannel::OwnTrades, "abc"),
        r#"{"event":"subscribe","subscription":{"name":"ownTrades","token":"abc"}}"#
    );
    assert_eq!(PrivateChannel::OpenOrders.as_str(), "openOrders");
}

#[test]
fn reconnect_schedule() {
    let c = PrivateWsConfig::new("t".to_string());
    assert_eq!(next_reconnect(&c, 0), Some((1, 2)));
    assert_eq!(next_reconnect(&c, 3), Some((4, 16)));
    assert_eq!(next_reconnect(&c, 7), Some((8, 32)));
    assert_eq!(next_reconnect(&c, 10), None);
    let mut off = PrivateWsConfig::new("t".to_string());
    off.auto_reconnect = false;
    assert_eq!(next_reconnect(&off, 0), None);
}

#[test]
fn reads_own_trades() {
    let data = JsonValue::Array(vec![obj(vec![(
        "TID1",
        obj(vec![
            ("ordertxid", s("OID")),
            ("pair", s("XBT/USD")),
            ("type", s("buy")),
            ("price", s("50000.5")),
            ("vol", s("0.1")),
            ("cost", s("5000.05")),
            ("fee", s("1.2")),
            ("time", s("1616492376")),
        ]),
    )])]);
    let with_sequence = JsonValue::Array(vec![
        JsonValue::Array(vec![]),
        s("ownTrades"),
        obj(vec![("sequence", JsonValue::Number("1".to_string()))]),
    ]);
    assert!(matches!(read_private_message(Ok(&with_sequence)).unwrap(), PrivateMessage::Ignored));
    let msg = JsonValue::Array(vec![data, s("ownTrades")]);
    match read_private_message(Ok(&msg)).unwrap() {
        PrivateMessage::Executions(es) => {
            assert_eq!(es.len(), 1);
            assert_eq!(es[0].trade_id, "TID1");
            assert_eq!(es[0].order_txid, "OID");
            assert_eq!(es[0].side, OrderSide::Buy);
            assert_eq!(es[0].price, Decimal::from_str("50000.5").unwrap());
            assert_eq!(es[0].fee_currency, "USD");
            assert_eq!(es[0].time, 1_616_492_376_000_000);
        },
        other => panic!("unexpected {:?}", other),
    }
}

#[test]
fn reads_order_updates_and_status_messages() {
    let data = JsonValue::Array(vec![obj(vec![("OID", obj(vec![("status", s("canceled")), ("vol_exec", s("0.5"))]))])]);
    let msg = JsonValue::Array(vec![data, s("openOrders")]);
    match read_private_message(Ok(&msg)).unwrap() {
        PrivateMessage::OrderUpdates(us) => {
            assert_eq!(us[0].status, OrderStatus::Canceled);
            assert_eq!(us[0].volume_exec, Decimal::from_str("0.5").unwrap());
            assert!(us[0].avg_price.is_none());
        },
        other => panic!("unexpected {:?}", other),
    }
    assert!(matches!(read_private_message(Ok(&obj(vec![("event", s("heartbeat"))]))).unwrap(), PrivateMessage::System));
    match read_private_message(Ok(&obj(vec![("event", s("error"))]))).unwrap() {
        PrivateMessage::Error(m) => assert_eq!(m, "Unknown error"),
        other => panic!("unexpected {:?}", other),
    }
    assert!(read_private_message(Err("bad".to_string())).is_err());
    assert!(matches!(read_private_message(Ok(&JsonValue::Null)).unwrap(), PrivateMessage::Ignored));
}

#[test]
fn state_keeps_last_hundred_executions() {
    let mut st = PrivateState::new();
    let msg = JsonValue::Array(vec![
        JsonValue::Array(vec![obj(vec![("T", obj(vec![("type", s("sell"))]))])]),
        s("ownTrades"),
    ]);
    for _ in 0..105 {
        if let PrivateMessage::Executions(mut es) = read_private_message(Ok(&msg)).unwrap() {
            st.record_execution(es.remove(0));
        }
    }
    assert_eq!(st.get_recent_executions().len(), 100);
    st.apply_order_update(&OrderUpdate {
        txid: "X".to_string(),
        status: OrderStatus::Closed,
        volume_exec: Decimal::ZERO,
        avg_price: None,
        fee: None,
        timestamp: 0,
    });
    assert_eq!(st.open_order_count(), 0);
}

#[test]
fn fresh_private_state_has_no_open_orders() {
    let s = PrivateState::new();
    assert!(s.open_orders().is_empty());
    assert_eq!(s.open_order_count(), 0);
}
