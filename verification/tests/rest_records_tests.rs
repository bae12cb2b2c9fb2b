use kraken_ws_sdk::parser::JsonValue;
use kraken_ws_sdk::rest::{execution_from_json, newest_first, order_from_json, try_position_from_json, position_from_json};
use kraken_ws_sdk::trading::{OrderSide, OrderStatus, OrderType};
use rust_decimal::Decimal;
use std::str::FromStr;

fn s(t: &str) -> JsonValue {
    JsonValue::Str(t.to_string())
}

fn obj(fields: Vec<(&str, JsonValue)>) -> JsonValue {
    JsonValue::Object(fields.into_iter().map(|(k, v)| (k.to_string(), v)).collect())
}

fn dec(t: &str) -> Decimal {
    Decimal::from_str(t).unwrap()
}

#[test]
fn order_fields_are_read() {
    let data = obj(vec![
        ("status", s("closed")),
        ("vol", s("1.5")),
        ("vol_exec", s("0.5")),
        ("price", s("50100")),
        ("cl_ord_id", s("mine")),
        ("descr", obj(vec![("pair", s("XBTUSD")), ("type", s("buy")), ("ordertype", s("stop-loss")), ("price", s("50000"))])),
    ]);
    let o = order_from_json("OABC", &data, 1_000_000, Some(2_000_000));
    assert_eq!(o.txid, "OABC");
    assert_eq!(o.status, OrderStatus::Closed);
    assert_eq!(o.pair, "XBTUSD");
    assert_eq!(o.side, OrderSide::Buy);
    assert_eq!(o.order_type, OrderType::StopLoss);
    assert_eq!(o.volume, dec("1.5"));
    assert_eq!(o.volume_exec, dec("0.5"));
    assert_eq!(o.price, Some(dec("50000")));
    assert_eq!(o.avg_price, Some(dec("50100")));
    assert_eq!(o.opentm, 1_000_000);
    assert_eq!(o.closetm, Some(2_000_000));
    assert_eq!(o.client_order_id, Some("mine".to_string()));
}

#[test]
fn order_defaults_without_description() {
    let o = order_from_json("O1", &obj(vec![]), 5, None);
    assert_eq!(o.status, OrderStatus::Open);
    assert_eq!(o.pair, "");
    assert_eq!(o.side, OrderSide::Sell);
    assert_eq!(o.order_type, OrderType::Limit);
    assert_eq!(o.volume, Decimal::ZERO);
    assert_eq!(o.price, None);
    assert_eq!(o.client_order_id, None);
}

#[test]
fn execution_fields_are_read() {
    let data = obj(vec![
        ("ordertxid", s("O1")),
        ("pair", s("XBTUSD")),
        ("type", s("sell")),
        ("price", s("100")),
        ("vol", s("2")),
        ("cost", s("200")),
        ("fee", s("0.4")),
    ]);
    let e = execution_from_json("T1", &data, 42);
    assert_eq!(e.trade_id, "T1");
    assert_eq!(e.order_txid, "O1");
    assert_eq!(e.side, OrderSide::Sell);
    assert_eq!(e.order_type, OrderType::Market);
    assert_eq!(e.cost, dec("200"));
    assert_eq!(e.fee, dec("0.4"));
    assert_eq!(e.fee_currency, "0.4");
    assert_eq!(e.time, 42);
    let bare = execution_from_json("T2", &obj(vec![]), 0);
    assert_eq!(bare.fee_currency, "USD");
}

#[test]
fn position_prices_divide_by_volume_at_least_one() {
    let data = obj(vec![
        ("pair", s("XBTUSD")),
        ("type", s("buy")),
        ("vol", s("2")),
        ("cost", s("100")),
        ("value", s("110")),
        ("net", s("10")),
    ]);
    let p = position_from_json("P1", &data, 7);
    assert_eq!(p.entry_price, dec("50"));
    assert_eq!(p.mark_price, dec("55"));
    assert_eq!(p.unrealized_pnl, dec("10"));
    assert_eq!(p.side, OrderSide::Buy);
    assert_eq!(p.open_time, 7);
    let small = obj(vec![("vol", s("0.5")), ("cost", s("30")), ("value", s("40"))]);
    let q = try_position_from_json("P2", &small, 0).unwrap();
    assert_eq!(q.entry_price, dec("30"));
    assert_eq!(q.mark_price, dec("40"));
    assert_eq!(q.realized_pnl, Decimal::ZERO);
}

#[test]
fn executions_come_newest_first() {
    let e = |id: &str, t: i64| execution_from_json(id, &obj(vec![]), t);
    let sorted = newest_first(vec![e("a", 1), e("b", 3), e("c", 2), e("d", 3)]);
    let ids: Vec<&str> = sorted.iter().map(|x| x.trade_id.as_str()).collect();
    assert_eq!(ids, vec!["b", "d", "c", "a"]);
}
