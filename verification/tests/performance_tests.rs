use kraken_ws_sdk::performance::{decimal_sqrt, CompletedTrade, PerformanceTracker};
use rust_decimal::Decimal;
use std::str::FromStr;

fn dec(t: &str) -> Decimal {
    Decimal::from_str(t).unwrap()
}

fn trade(id: &str, pnl: &str, pct: &str, fees: &str, entry: i64, exit: i64) -> CompletedTrade {
    CompletedTrade {
        id: id.to_string(),
        pair: "XBT/USD".to_string(),
        side: "buy".to_string(),
        entry_price: dec("50000"),
        exit_price: dec("51000"),
        volume: dec("0.1"),
        pnl: dec(pnl),
        pnl_percent: dec(pct),
        entry_time: entry,
        exit_time: exit,
        fees: dec(fees),
    }
}

#[test]
fn test_performance_tracker() {
    let mut tracker = PerformanceTracker::new(dec("10000"));
    tracker.record_trade(trade("1", "100", "2", "1", 0, 0));
    tracker.record_trade(trade("2", "-50", "-1", "1", 0, 0));

    let stats = tracker.calculate_stats();
    assert_eq!(stats.total_trades, 2);
    assert_eq!(stats.winning_trades, 1);
    assert_eq!(stats.losing_trades, 1);
    assert_eq!(stats.win_rate, dec("0.5"));
}

#[test]
fn test_decimal_sqrt() {
    let result = decimal_sqrt(dec("4")).unwrap();
    assert!((result - dec("2")).abs() < dec("0.0001"));

    let result = decimal_sqrt(dec("9")).unwrap();
    assert!((result - dec("3")).abs() < dec("0.0001"));
}

#[test]
fn balance_peak_and_drawdown() {
    let mut t = PerformanceTracker::new(dec("1000"));
    t.record_trade(trade("1", "200", "20", "0", 0, 1_000_000));
    assert_eq!(t.current_balance(), dec("1200"));
    t.record_trade(trade("2", "-300", "-25", "0", 0, 2_000_000));
    assert_eq!(t.current_balance(), dec("900"));
    assert_eq!(t.current_drawdown(), dec("300"));
    assert_eq!(t.current_drawdown_percent(), dec("25"));
    let curve = t.get_equity_curve();
    assert_eq!(curve.len(), 2);
    assert_eq!(curve[0].drawdown, Decimal::ZERO);
    assert_eq!(curve[1].drawdown, dec("300"));
    assert_eq!(curve[1].timestamp, 2_000_000);
    let recent = t.get_recent_trades(1);
    assert_eq!(recent.len(), 1);
    assert_eq!(recent[0].id, "2");
}

#[test]
fn statistics_of_mixed_trades() {
    let mut t = PerformanceTracker::new(dec("10000"));
    t.record_trade(trade("1", "100", "2", "1", 0, 10_000_000));
    t.record_trade(trade("2", "-50", "-1", "1", 0, 20_000_000));
    t.record_trade(trade("3", "30", "1", "1", 0, 30_000_000));
    let s = t.calculate_stats();
    assert_eq!(s.total_pnl, dec("80"));
    assert_eq!(s.total_fees, dec("3"));
    assert_eq!(s.net_pnl, dec("77"));
    assert_eq!(s.largest_win, dec("100"));
    assert_eq!(s.largest_loss, dec("50"));
    assert_eq!(s.avg_win, dec("65"));
    assert_eq!(s.avg_loss, dec("50"));
    assert_eq!(s.profit_factor, dec("2.6"));
    assert_eq!(s.avg_duration_seconds, 20);
    assert!(s.sharpe_ratio > Decimal::ZERO);
    assert!(s.sortino_ratio > Decimal::ZERO);
}

#[test]
fn no_losses_caps_profit_factor_and_sortino() {
    let mut t = PerformanceTracker::default();
    t.record_trade(trade("1", "10", "1", "0", 0, 0));
    t.record_trade(trade("2", "20", "2", "0", 0, 0));
    let s = t.calculate_stats();
    assert_eq!(s.profit_factor, dec("999.99"));
    assert_eq!(s.sortino_ratio, dec("999.99"));
    assert_eq!(s.losing_trades, 0);
    assert_eq!(s.avg_loss, Decimal::ZERO);
}

#[test]
fn empty_tracker_has_zero_stats() {
    let t = PerformanceTracker::new(dec("5"));
    let s = t.calculate_stats();
    assert_eq!(s.total_trades, 0);
    assert_eq!(s.win_rate, Decimal::ZERO);
    assert_eq!(s.sharpe_ratio, Decimal::ZERO);
}

#[test]
fn reset_starts_over_and_history_is_bounded() {
    let mut t = PerformanceTracker::new(dec("0"));
    for i in 0..1005 {
        t.record_trade(trade(&i.to_string(), "1", "0", "0", 0, 0));
    }
    assert_eq!(t.get_recent_trades(2000).len(), 1000);
    assert_eq!(t.get_recent_trades(1)[0].id, "1004");
    t.reset(dec("7"));
    assert_eq!(t.current_balance(), dec("7"));
    assert!(t.get_equity_curve().is_empty());
}

#[test]
fn sqrt_of_non_positive_is_zero_and_durations_round_toward_zero() {
    assert_eq!(decimal_sqrt(dec("-4")), Some(Decimal::ZERO));
    assert_eq!(trade("x", "0", "0", "0", 0, -1_500_000).duration_seconds(), -1);
    assert_eq!(trade("x", "0", "0", "0", 0, 2_999_999).duration_seconds(), 2);
}
