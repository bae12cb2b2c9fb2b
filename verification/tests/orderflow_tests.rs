use kraken_ws_sdk::data::{PriceLevel, TradeData, TradeSide};
use kraken_ws_sdk::orderbook::OrderBook;
use kraken_ws_sdk::orderflow::{
    FlowEventType, FlowSide, MarketHealthTracker, MarketStatus, OrderFlowConfig, OrderFlowTracker,
    StaleDetectionConfig, TradeOverlayConfig, TradesByPriceLevel,
};
use rust_decimal::Decimal;
use std::str::FromStr;

fn dec(s: &str) -> Decimal {
    Decimal::from_str(s).unwrap()
}

fn now() -> i64 {
    chrono::Utc::now().timestamp_micros()
}

fn level(price: &str, volume: &str) -> PriceLevel {
    PriceLevel { price: dec(price), volume: dec(volume), timestamp: now() }
}

#[test]
fn test_flow_tracker_detects_new_level() {
    let mut tracker = OrderFlowTracker::new();

    let mut book = OrderBook::new("BTC/USD");
    book.bids.insert(dec("50000"), level("50000", "1.0"));

    // First track - no events (no previous snapshot)
    let events = tracker.track_update(&book);
    assert!(events.is_empty());

    // Add a new level
    book.bids.insert(dec("49900"), level("49900", "2.0"));

    let events = tracker.track_update(&book);
    assert!(!events.is_empty());
    assert!(events.iter().any(|e| matches!(e.event_type, FlowEventType::LevelAdded)));
}

#[test]
fn test_flow_tracker_detects_large_order() {
    let mut config = OrderFlowConfig::default();
    config.large_order_threshold = dec("5.0");
    let mut tracker = OrderFlowTracker::with_config(config);

    let mut book = OrderBook::new("BTC/USD");
    book.bids.insert(dec("50000"), level("50000", "1.0"));

    tracker.track_update(&book);

    // Increase to large order
    book.bids.insert(dec("50000"), level("50000", "10.0"));

    let events = tracker.track_update(&book);
    assert!(events.iter().any(|e| matches!(e.event_type, FlowEventType::LargeOrderAppeared)));
}

#[test]
fn test_trades_by_price_level() {
    let mut tracker = TradesByPriceLevel::new();

    let trade = TradeData {
        symbol: "BTC/USD".to_string(),
        price: dec("50000"),
        volume: dec("0.5"),
        side: TradeSide::Buy,
        timestamp: now(),
        trade_id: "trade1".to_string(),
    };

    tracker.add_trade(&trade);

    let trades = tracker.get_trades_at_price("BTC/USD", dec("50000"));
    assert_eq!(trades.len(), 1);
    assert_eq!(trades[0].volume, dec("0.5"));
}

#[test]
fn test_market_health_tracker() {
    let config = StaleDetectionConfig { stale_threshold_secs: 1, halt_threshold_secs: 2 };
    let mut tracker = MarketHealthTracker::with_config(config);

    tracker.record_update("BTC/USD");
    assert_eq!(tracker.check_status("BTC/USD"), MarketStatus::Active);

    // Unknown for untracked symbol
    assert_eq!(tracker.check_status("ETH/USD"), MarketStatus::Unknown);
}

#[test]
fn flow_removals_sizes_and_best_prices() {
    let mut tracker = OrderFlowTracker::new();
    let mut book = OrderBook::new("ETH/USD");
    book.bids.insert(dec("100"), level("100", "3"));
    book.bids.insert(dec("99"), level("99", "20"));
    book.asks.insert(dec("101"), level("101", "1"));
    tracker.track_update(&book);

    book.bids.remove(&dec("100"));
    book.bids.insert(dec("99"), level("99", "4"));
    book.asks.insert(dec("101"), level("101", "3.5"));
    let events = tracker.track_update(&book);
    let kinds: Vec<String> = events.iter().map(|e| format!("{:?}/{:?}", e.side, e.event_type)).collect();
    // bid 99 fell from 20 to 4: a large order disappeared; bid 100 removed;
    // ask 101 grew by 2.5; best bid moved from 100 to 99.
    assert_eq!(events.len(), 4, "{:?}", kinds);
    assert!(matches!(events[0].event_type, FlowEventType::LargeOrderDisappeared));
    assert!(matches!(events[1].event_type, FlowEventType::LevelRemoved));
    assert_eq!(events[1].price, dec("100"));
    match events[2].event_type {
        FlowEventType::SizeIncreased { delta } => assert_eq!(delta, dec("2.5")),
        _ => panic!("expected a size increase"),
    }
    assert_eq!(events[2].side, FlowSide::Ask);
    match events[3].event_type {
        FlowEventType::BestBidChanged { old, new } => {
            assert_eq!(old, dec("100"));
            assert_eq!(new, dec("99"));
        }
        _ => panic!("expected a best bid change"),
    }
    // sequence numbers continue from one update to the next
    assert_eq!(events[0].sequence, 1);
    assert_eq!(events[3].sequence, 4);
    assert_eq!(tracker.get_recent_events(2).len(), 2);
    assert_eq!(tracker.get_recent_events(2)[0].sequence, 4);
    assert_eq!(tracker.get_large_order_events(10).len(), 1);
    assert_eq!(tracker.get_events_for_symbol("ETH/USD", 10).len(), 4);
    assert!(tracker.get_events_for_symbol("BTC/USD", 10).is_empty());
    tracker.clear_symbol("ETH/USD");
    assert!(tracker.track_update(&book).is_empty());
    tracker.clear_all();
    assert!(tracker.get_recent_events(10).is_empty());
}

#[test]
fn trade_levels_round_and_evict() {
    let config = TradeOverlayConfig {
        max_trades_per_level: 2,
        max_levels: 2,
        aggregation_window_secs: 60,
        price_precision: Some(dec("10")),
    };
    let mut tracker = TradesByPriceLevel::with_config(config);
    let base = 1_700_000_000_000_000i64;
    let trade = |id: &str, price: &str, side: TradeSide, t: i64| TradeData {
        symbol: "BTC/USD".to_string(),
        price: dec(price),
        volume: dec("1"),
        side,
        timestamp: t,
        trade_id: id.to_string(),
    };
    tracker.add_trade(&trade("a", "101", TradeSide::Buy, base));
    tracker.add_trade(&trade("b", "105", TradeSide::Sell, base + 1));
    tracker.add_trade(&trade("c", "109", TradeSide::Buy, base + 2));
    // three trades in bucket 100, two kept
    let kept = tracker.trades_at_price_at("BTC/USD", dec("100"), base + 1_000_000);
    assert_eq!(kept.len(), 2);
    assert_eq!(kept[0].trade_id, "b");
    assert_eq!(kept[1].age_ms, 999);
    let stats = tracker.stats_at_price_at("BTC/USD", dec("100"), base + 1_000_000).unwrap();
    assert_eq!(stats.trade_count, 2);
    assert_eq!(stats.buy_volume, dec("1"));
    assert_eq!(stats.sell_volume, dec("1"));
    assert_eq!(stats.avg_trade_size, dec("1"));
    assert_eq!(stats.last_trade.unwrap().trade_id, "c");
    // two more levels: the level with the oldest newest trade goes
    tracker.add_trade(&trade("d", "200", TradeSide::Buy, base + 3));
    tracker.add_trade(&trade("e", "300", TradeSide::Buy, base + 4));
    assert!(tracker.trades_at_price_at("BTC/USD", dec("100"), base).is_empty());
    assert_eq!(tracker.active_levels_at("BTC/USD", base + 5), vec![dec("200"), dec("300")]);
    // outside the window nothing is active
    assert!(tracker.active_levels_at("BTC/USD", base + 120_000_000).is_empty());
    assert_eq!(tracker.trade_overlay_at("BTC/USD", base + 5).len(), 2);
    tracker.clear_symbol("BTC/USD");
    assert!(tracker.get_active_levels("BTC/USD").is_empty());
}

#[test]
fn health_thresholds() {
    let mut tracker = MarketHealthTracker::with_config(StaleDetectionConfig {
        stale_threshold_secs: 5,
        halt_threshold_secs: 30,
    });
    let t0 = 1_700_000_000_000_000i64;
    tracker.record_update_at("XBT/USD", t0);
    assert_eq!(tracker.check_status_at("XBT/USD", t0 + 4_999_999), MarketStatus::Active);
    assert_eq!(tracker.check_status_at("XBT/USD", t0 + 5_000_000), MarketStatus::Stale);
    assert_eq!(tracker.check_status_at("XBT/USD", t0 + 30_000_000), MarketStatus::Halted);
    // an update in the future counts as a huge elapsed time
    assert_eq!(tracker.check_status_at("XBT/USD", t0 - 2_000_000), MarketStatus::Halted);
    assert_eq!(tracker.time_since_update_at("XBT/USD", t0 + 1_500), Some(1));
    assert_eq!(tracker.time_since_update_at("XBT/USD", t0 - 10), Some(0));
    let statuses = tracker.tick_at(t0 + 6_000_000);
    assert_eq!(statuses, vec![("XBT/USD".to_string(), MarketStatus::Stale)]);
}
