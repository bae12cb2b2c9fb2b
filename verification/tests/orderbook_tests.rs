use kraken_ws_sdk::data::{OrderBookUpdate, PriceLevel};
use kraken_ws_sdk::orderbook::{OrderBook, OrderBookManager, PressureSignal};
use rust_decimal::Decimal;
use std::str::FromStr;

fn d(s: &str) -> Decimal {
    Decimal::from_str(s).unwrap()
}

fn level(price: &str, volume: &str) -> PriceLevel {
    PriceLevel { price: d(price), volume: d(volume), timestamp: 1_700_000_000_000_000 }
}

fn sample_book() -> OrderBook {
    let mut book = OrderBook::new("BTC/USD");
    book.bids.insert(d("100"), level("100", "2"));
    book.bids.insert(d("99"), level("99", "3"));
    book.bids.insert(d("98"), level("98", "5"));
    book.asks.insert(d("101"), level("101", "1"));
    book.asks.insert(d("102"), level("102", "4"));
    book
}

#[test]
fn spread_and_mid_price() {
    let book = sample_book();
    assert_eq!(book.get_spread(), Some(d("1")));
    assert_eq!(book.get_mid_price(), Some(d("100.5")));
    assert!(!book.is_empty());
    let empty = OrderBook::new("ETH/USD");
    assert_eq!(empty.get_spread(), None);
    assert_eq!(empty.get_mid_price(), None);
    assert!(empty.is_empty());
}

#[test]
fn best_levels_and_lookup() {
    let book = sample_book();
    assert_eq!(book.get_best_bid().unwrap().price, d("100"));
    assert_eq!(book.get_best_ask().unwrap().price, d("101"));
    assert_eq!(book.get_volume_at_price(d("99")), Some(d("3")));
    assert_eq!(book.get_volume_at_price(d("102.0")), Some(d("4")));
    assert_eq!(book.get_volume_at_price(d("50")), None);
    let (bids, asks) = book.get_top_levels(2);
    assert_eq!(bids.iter().map(|l| l.price).collect::<Vec<_>>(), vec![d("100"), d("99")]);
    assert_eq!(asks.iter().map(|l| l.price).collect::<Vec<_>>(), vec![d("101"), d("102")]);
}

#[test]
fn side_insert_replace_remove() {
    let mut book = OrderBook::new("X");
    assert!(book.bids.insert(d("10"), level("10", "1")).is_none());
    let old = book.bids.insert(d("10.00"), level("10.00", "7"));
    assert_eq!(old.unwrap().volume, d("1"));
    assert_eq!(book.bids.len(), 1);
    assert_eq!(book.bids.get(&d("10")).unwrap().volume, d("7"));
    assert_eq!(book.bids.remove(&d("10")).unwrap().volume, d("7"));
    assert!(book.bids.is_empty());
    assert!(book.bids.remove(&d("10")).is_none());
}

#[test]
fn depth_ladder_cumulative() {
    let book = sample_book();
    let ladder = book.get_depth_ladder(2);
    assert_eq!(ladder.best_bid, Some(d("100")));
    assert_eq!(ladder.best_ask, Some(d("101")));
    assert_eq!(ladder.spread, Some(d("1")));
    assert_eq!(ladder.spread_bps, Some(d("1") / d("100.5") * Decimal::from(100)));
    assert_eq!(ladder.bids.len(), 2);
    assert_eq!(ladder.bids[0].price, d("100"));
    assert_eq!(ladder.bids[0].cumulative_volume, d("2"));
    assert_eq!(ladder.bids[1].cumulative_volume, d("5"));
    assert_eq!(ladder.bids[0].volume_percent, d("40"));
    assert_eq!(ladder.bids[1].cumulative_percent, d("100"));
    assert_eq!(ladder.bids[0].distance_from_mid, Some(d("0.5")));
    assert_eq!(ladder.asks[1].cumulative_volume, d("5"));
    assert_eq!(ladder.asks[0].distance_from_mid, Some(d("0.5")));
    assert!(book.try_depth_ladder(20).is_some());
}

#[test]
fn imbalance_and_pressure() {
    let book = sample_book();
    // bids 2 + 3 + 5 = 10, asks 1 + 4 = 5: (10 - 5) / 15 = 1/3
    let ratio = book.get_imbalance_ratio(10);
    assert_eq!(ratio, d("5") / d("15"));
    let metrics = book.get_imbalance_metrics(10);
    assert_eq!(metrics.bid_volume, d("10"));
    assert_eq!(metrics.ask_volume, d("5"));
    assert_eq!(metrics.depth_levels, 10);
    assert_eq!(metrics.ask_vwap, Some((d("101") + d("408")) / d("5")));
    let pressure = book.get_book_pressure(10);
    assert_eq!(pressure.signal, PressureSignal::WeakBuy);
    assert_eq!(pressure.confidence, d("15") / d("115"));
    let empty = OrderBook::new("E");
    assert_eq!(empty.get_imbalance_ratio(5), Decimal::ZERO);
    assert_eq!(empty.get_book_pressure(5).signal, PressureSignal::Neutral);
}

#[test]
fn aggregate_by_tick() {
    let mut book = OrderBook::new("BTC/USD");
    book.bids.insert(d("101"), level("101", "1"));
    book.bids.insert(d("105"), level("105", "2"));
    book.bids.insert(d("111"), level("111", "3"));
    book.asks.insert(d("120"), level("120", "1"));
    let agg = book.aggregate(d("10"));
    assert_eq!(agg.bids.len(), 2);
    assert_eq!(agg.bids[0].price, d("110"));
    assert_eq!(agg.bids[0].order_count, 1);
    assert_eq!(agg.bids[1].price, d("100"));
    assert_eq!(agg.bids[1].volume, d("3"));
    assert_eq!(agg.bids[1].order_count, 2);
    assert_eq!(agg.asks[0].price, d("120"));
    assert!(book.try_aggregate(Decimal::ZERO).is_none());
}

#[test]
fn filter_by_spread_window() {
    let book = sample_book();
    let f = book.filter_by_spread(d("1")).unwrap();
    // mid 100.5, range 1.005: [99.495, 101.505]
    assert_eq!(f.bids.iter().map(|l| l.price).collect::<Vec<_>>(), vec![d("100")]);
    assert_eq!(f.asks.iter().map(|l| l.price).collect::<Vec<_>>(), vec![d("101")]);
    assert!(OrderBook::new("E").filter_by_spread(d("1")).is_none());
}

#[test]
fn manager_applies_updates() {
    let mut manager = OrderBookManager::new();
    let update = OrderBookUpdate {
        symbol: "BTC/USD".to_string(),
        bids: vec![level("100", "1"), level("99", "2")],
        asks: vec![level("101", "3")],
        timestamp: 5,
        checksum: Some(42),
    };
    let book = manager.apply_update(update).unwrap();
    assert_eq!(book.bids.len(), 2);
    assert_eq!(book.checksum, Some(42));
    let removal = OrderBookUpdate {
        symbol: "BTC/USD".to_string(),
        bids: vec![level("100", "0")],
        asks: vec![],
        timestamp: 6,
        checksum: None,
    };
    let book = manager.apply_update(removal).unwrap();
    assert_eq!(book.bids.len(), 1);
    assert_eq!(book.last_update, 6);
    assert_eq!(manager.get_best_bid_ask("BTC/USD"), Some((Some(d("99")), Some(d("101")))));
    let (bids, asks) = manager.get_depth("BTC/USD", 5).unwrap();
    assert_eq!(bids.len(), 1);
    assert_eq!(asks.len(), 1);
    // "99:2" + "101:3"
    assert_eq!(manager.calculate_checksum("BTC/USD"), Some(9));
    assert_eq!(manager.get_symbols(), vec!["BTC/USD".to_string()]);
    assert!(manager.get_order_book("ETH/USD").is_none());
    manager.clear_order_book("BTC/USD");
    assert!(manager.get_order_book("BTC/USD").is_none());
}
