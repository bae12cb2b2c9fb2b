use kraken_ws_sdk::data::{OHLCData, OrderBookUpdate, PriceLevel, TickerData, TradeData, TradeSide};
use rust_decimal::Decimal;
use std::str::FromStr;

fn dec(t: &str) -> Decimal {
    Decimal::from_str(t).unwrap()
}

#[test]
fn ticker_text() {
    let t = TickerData {
        symbol: "XBT/USD".to_string(),
        bid: dec("50000.1"),
        ask: dec("50000.2"),
        last_price: dec("50000.15"),
        volume: dec("12"),
        timestamp: 0,
    };
    assert_eq!(t.text(), "Ticker[XBT/USD]: bid=50000.1, ask=50000.2, last=50000.15, vol=12 @ 1970-01-01 00:00:00 UTC");
}

#[test]
fn book_trade_level_and_candle_texts() {
    let level = PriceLevel { price: dec("100.5"), volume: dec("2"), timestamp: 0 };
    assert_eq!(level.text(), "2@100.5");
    let u = OrderBookUpdate {
        symbol: "ETH/USD".to_string(),
        bids: vec![level],
        asks: vec![],
        timestamp: 86_400_000_000,
        checksum: None,
    };
    assert_eq!(u.text(), "OrderBook[ETH/USD]: 1 bids, 0 asks @ 1970-01-02 00:00:00 UTC");
    let tr = TradeData {
        symbol: "XBT/USD".to_string(),
        price: dec("10"),
        volume: dec("0.5"),
        side: TradeSide::Sell,
        timestamp: 0,
        trade_id: "t1".to_string(),
    };
    assert_eq!(tr.text(), "Trade[XBT/USD]: Sell 0.5 @ 10 (ID: t1) @ 1970-01-01 00:00:00 UTC");
    let c = OHLCData {
        symbol: "XBT/USD".to_string(),
        open: dec("1"),
        high: dec("3"),
        low: dec("0.5"),
        close: dec("2"),
        volume: dec("7"),
        timestamp: 0,
        interval: "60".to_string(),
    };
    assert_eq!(c.text(), "OHLC[XBT/USD:60]: O=1 H=3 L=0.5 C=2 V=7 @ 1970-01-01 00:00:00 UTC");
}
