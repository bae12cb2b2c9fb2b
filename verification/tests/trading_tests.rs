use kraken_ws_sdk::trading::{
    AssetBalance, Balances, CancelRequest, EditOrderRequest, Order, OrderRequest, OrderSide, OrderStatus, OrderType,
    Position, TimeInForce,
};
use rust_decimal::Decimal;
use std::str::FromStr;

fn dec(t: &str) -> Decimal {
    Decimal::from_str(t).unwrap()
}

#[test]
fn test_market_order_creation() {
    let order = OrderRequest::market_buy("XBT/USD", dec("0.001"));
    assert_eq!(order.pair, "XBT/USD");
    assert_eq!(order.side, OrderSide::Buy);
    assert_eq!(order.order_type, OrderType::Market);
    assert!(order.price.is_none());
}

#[test]
fn test_limit_order_creation() {
    let order = OrderRequest::limit_sell("ETH/USD", dec("1.5"), dec("2000.00"));
    assert_eq!(order.side, OrderSide::Sell);
    assert_eq!(order.order_type, OrderType::Limit);
    assert_eq!(order.price, Some(dec("2000.00")));
}

#[test]
fn test_order_builder_chain() {
    let order = OrderRequest::limit_buy("XBT/USD", dec("0.01"), dec("50000.00"))
        .post_only()
        .with_client_id("my-order-123")
        .with_time_in_force(TimeInForce::IOC);

    assert!(order.flags.post_only);
    assert_eq!(order.client_order_id, Some("my-order-123".to_string()));
    assert_eq!(order.time_in_force, TimeInForce::IOC);
}

#[test]
fn test_order_to_params() {
    let order = OrderRequest::limit_buy("XBT/USD", dec("0.01"), dec("50000.00")).post_only();

    let params = order.to_params();
    assert!(params.iter().any(|(k, v)| k == "pair" && v == "XBT/USD"));
    assert!(params.iter().any(|(k, v)| k == "type" && v == "buy"));
    assert!(params.iter().any(|(k, v)| k == "ordertype" && v == "limit"));
    assert!(params.iter().any(|(k, v)| k == "oflags" && v.contains("post")));
}

fn position(side: OrderSide, entry: &str, mark: &str, pnl: &str) -> Position {
    Position {
        position_id: "pos1".to_string(),
        pair: "XBT/USD".to_string(),
        side,
        volume: dec("1.0"),
        entry_price: dec(entry),
        mark_price: dec(mark),
        unrealized_pnl: dec(pnl),
        realized_pnl: Decimal::ZERO,
        liquidation_price: None,
        open_time: 0,
    }
}

#[test]
fn test_position_pnl() {
    let position = position(OrderSide::Buy, "50000.00", "55000.00", "5000.00");
    assert_eq!(position.pnl_percent(), dec("10"));
    assert!(position.is_profitable());
}

#[test]
fn short_position_gains_when_price_falls() {
    let p = position(OrderSide::Sell, "200", "150", "50");
    assert_eq!(p.pnl_percent(), dec("25"));
    assert_eq!(p.try_pnl_percent(), Some(dec("25")));
}

#[test]
fn zero_entry_price_gives_zero_pnl() {
    let p = position(OrderSide::Buy, "0", "10", "0");
    assert_eq!(p.pnl_percent(), Decimal::ZERO);
    assert!(!p.is_profitable());
}

#[test]
fn params_in_documented_order_with_all_options() {
    let mut order = OrderRequest::limit_sell("ETH/USD", dec("2"), dec("3000"))
        .reduce_only()
        .post_only()
        .validate_only()
        .with_client_id("abc")
        .with_time_in_force(TimeInForce::GTD);
    order.price2 = Some(dec("2900"));
    let params = order.to_params();
    let keys: Vec<&str> = params.iter().map(|(k, _)| k.as_str()).collect();
    assert_eq!(
        keys,
        vec!["pair", "type", "ordertype", "volume", "price", "price2", "timeinforce", "oflags", "cl_ord_id", "validate"]
    );
    assert_eq!(params[1].1, "sell");
    assert_eq!(params[3].1, "2");
    assert_eq!(params[4].1, "3000");
    assert_eq!(params[6].1, "GTD");
    assert_eq!(params[7].1, "post,reduceonly");
    assert_eq!(params[8].1, "abc");
    assert_eq!(params[9].1, "true");
}

#[test]
fn market_params_have_no_price_or_flags() {
    let params = OrderRequest::market_sell("XBT/USD", dec("0.5")).to_params();
    assert_eq!(params.len(), 4);
    assert_eq!(params[2].1, "market");
    assert_eq!(params[3].1, "0.5");
}

#[test]
fn order_type_names() {
    assert_eq!(OrderType::StopLossLimit.text(), "stop-loss-limit");
    assert_eq!(OrderType::TakeProfit.text(), "take-profit");
    assert_eq!(OrderSide::Sell.text(), "sell");
}

fn order(status: OrderStatus, volume: &str, executed: &str) -> Order {
    Order {
        txid: "T1".to_string(),
        status,
        pair: "XBT/USD".to_string(),
        side: OrderSide::Buy,
        order_type: OrderType::Limit,
        volume: dec(volume),
        volume_exec: dec(executed),
        price: Some(dec("100")),
        avg_price: None,
        opentm: 0,
        closetm: None,
        client_order_id: None,
    }
}

#[test]
fn order_fill_state() {
    let o = order(OrderStatus::Open, "4", "1");
    assert!(o.is_active());
    assert!(!o.is_filled());
    assert_eq!(o.remaining_volume(), dec("3"));
    assert_eq!(o.fill_percent(), dec("25"));
    let done = order(OrderStatus::Closed, "4", "4");
    assert!(done.is_filled());
    assert!(!done.is_active());
    let empty = order(OrderStatus::Pending, "0", "0");
    assert!(empty.is_active());
    assert_eq!(empty.fill_percent(), Decimal::ZERO);
}

#[test]
fn cancel_and_edit_requests() {
    let c = CancelRequest::new("OABC");
    assert_eq!(c.txid, "OABC");
    let e = EditOrderRequest::new("OABC").with_volume(dec("2")).with_price(dec("10"));
    assert_eq!(e.volume, Some(dec("2")));
    assert_eq!(e.price, Some(dec("10")));
    assert!(e.price2.is_none());
}

#[test]
fn balances_lookup() {
    let mut b = Balances::new();
    assert_eq!(b.available("XBT"), Decimal::ZERO);
    b.insert(
        "XBT",
        AssetBalance { asset: "XBT".to_string(), balance: dec("2"), available: dec("1.5"), hold: dec("0.5") },
    );
    b.insert(
        "USD",
        AssetBalance { asset: "USD".to_string(), balance: dec("100"), available: dec("100"), hold: Decimal::ZERO },
    );
    b.insert(
        "XBT",
        AssetBalance { asset: "XBT".to_string(), balance: dec("3"), available: dec("2"), hold: dec("1") },
    );
    assert_eq!(b.total("XBT"), dec("3"));
    assert_eq!(b.available("XBT"), dec("2"));
    assert_eq!(b.total("USD"), dec("100"));
    assert!(b.get("ETH").is_none());
}
