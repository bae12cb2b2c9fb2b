use kraken_ws_sdk::batch_orders::sizing;
use kraken_ws_sdk::batch_orders::{BatchOrderRequest, BracketOrder, OcoOrder};
use kraken_ws_sdk::trading::{OrderRequest, OrderSide};
use rust_decimal::Decimal;
use std::str::FromStr;

fn dec(t: &str) -> Decimal {
    Decimal::from_str(t).unwrap()
}

#[test]
fn test_batch_order_builder() {
    let batch = BatchOrderRequest::new()
        .add(OrderRequest::limit_buy("XBT/USD", dec("0.001"), dec("50000")))
        .add(OrderRequest::limit_sell("XBT/USD", dec("0.001"), dec("55000")));

    assert_eq!(batch.orders.len(), 2);
    assert!(batch.atomic);
}

#[test]
fn test_oco_order() {
    let oco = OcoOrder::buy_with_stop("XBT/USD", dec("0.01"), dec("50000"), dec("48000"));
    assert_eq!(oco.primary_price, dec("50000"));
    assert_eq!(oco.secondary_price, dec("48000"));
}

#[test]
fn test_bracket_order() {
    let bracket = BracketOrder::long("XBT/USD", dec("0.01"), dec("50000"), dec("55000"), dec("48000"));
    assert_eq!(bracket.entry_price, dec("50000"));
    assert_eq!(bracket.take_profit_price, dec("55000"));
    assert_eq!(bracket.stop_loss_price, dec("48000"));
}

#[test]
fn test_percent_sizing() {
    let size = sizing::percent_of_balance(dec("10000"), dec("10"));
    assert_eq!(size, dec("1000"));
}

#[test]
fn test_risk_based_sizing() {
    let size = sizing::risk_based(dec("100"), dec("50000"), dec("49000"));
    assert_eq!(size, dec("0.1"));
}

#[test]
fn non_atomic_batch_keeps_orders() {
    let batch = BatchOrderRequest::new().add(OrderRequest::market_buy("XBT/USD", dec("1"))).non_atomic();
    assert!(!batch.atomic);
    assert_eq!(batch.orders.len(), 1);
}

#[test]
fn sell_oco_and_short_bracket() {
    let oco = OcoOrder::sell_with_stop("ETH/USD", dec("1"), dec("3000"), dec("3100")).with_client_id("oco");
    assert_eq!(oco.side, OrderSide::Sell);
    assert_eq!(oco.client_id_prefix, Some("oco".to_string()));
    let b = BracketOrder::short("ETH/USD", dec("1"), dec("3000"), dec("2800"), dec("3100")).with_client_id("br");
    assert_eq!(b.side, OrderSide::Sell);
    assert_eq!(b.client_id_prefix, Some("br".to_string()));
}

#[test]
fn sizing_edge_cases() {
    assert_eq!(sizing::risk_based(dec("100"), dec("50000"), dec("50000")), Decimal::ZERO);
    assert_eq!(sizing::risk_based(dec("100"), dec("49000"), dec("50000")), dec("0.1"));
    assert_eq!(sizing::fixed_notional(dec("1000"), Decimal::ZERO), Decimal::ZERO);
    assert_eq!(sizing::fixed_notional(dec("1000"), dec("50")), dec("20"));
    assert_eq!(sizing::round_to_lot(dec("1.2345"), dec("0.01")), dec("1.23"));
    assert_eq!(sizing::round_to_lot(dec("1.2345"), Decimal::ZERO), dec("1.2345"));
    assert_eq!(sizing::try_percent_of_balance(Decimal::MAX, dec("10")), None);
    assert_eq!(sizing::try_risk_based(dec("1"), Decimal::MAX, Decimal::MIN), None);
}
