use kraken_ws_sdk::latency::{LatencyConfig, LatencyTracker};
use kraken_ws_sdk::middleware::OperationMetrics;
use kraken_ws_sdk::rate_limit::{AccountTier, EndpointCost, RateLimiter};
use kraken_ws_sdk::backpressure::{BackpressureConfig, BackpressureManager, BufferedMessage, DropPolicy};
use kraken_ws_sdk::retry::{CircuitBreaker, CircuitState};
use kraken_ws_sdk::state::{StateMachine, StateMachineConfig};
use std::time::Duration;

#[test]
fn breaker_counts_failures_since_last_success() {
    let mut cb = CircuitBreaker::new(100, Duration::from_secs(60));
    cb.record_failure();
    assert!(cb.allow_request());
    cb.record_failure();
    assert_eq!(cb.failure_count(), 2);
    cb.record_success();
    assert_eq!(cb.failure_count(), 0);
    cb.record_failure();
    assert!(cb.allow_request());
    assert_eq!(cb.failure_count(), 1);
}

#[test]
fn metrics_window_keeps_last_thousand() {
    let mut m = OperationMetrics::new();
    for us in 1..=1005u64 {
        m.record_latency("op", Duration::from_micros(us));
    }
    // the samples 6..=1005 remain: their mean is 505.5
    assert_eq!(m.get_stats().avg_latency_us, 505);
}

#[test]
fn latency_window_keeps_last_samples() {
    let mut t = LatencyTracker::with_config(LatencyConfig {
        max_samples: 3,
        histogram_bucket_us: 1000,
        histogram_buckets: 10,
        rate_window_secs: 10,
    });
    for d in 1..=5i64 {
        t.record_explicit(0, d, d, "ticker", "XBT/USD");
    }
    assert_eq!(t.network_samples(), vec![3, 4, 5]);
}

#[test]
fn state_history_stops_at_its_bound() {
    let mut sm = StateMachine::new(StateMachineConfig::default());
    for _ in 0..80 {
        assert!(sm.connect().is_ok());
        assert!(sm.close().is_ok());
    }
    assert_eq!(sm.history().len(), 100);
}

#[test]
fn order_requests_are_always_possible() {
    for tier in [AccountTier::Starter, AccountTier::Intermediate, AccountTier::Pro] {
        let mut l = RateLimiter::new(tier);
        assert!(l.can_request(EndpointCost::Order));
        assert!(l.can_request(EndpointCost::Standard));
        assert!(l.can_request(EndpointCost::Ledger));
    }
}

#[test]
fn breaker_reopens_only_after_reset_timeout() {
    let mut cb = CircuitBreaker::new(3, Duration::from_secs(1));
    for _ in 0..3 {
        assert!(cb.allow_request_after(0));
        cb.record_failure();
    }
    assert_eq!(cb.state(), &CircuitState::Open);
    assert!(!cb.allow_request_after(0));
    assert!(!cb.allow_request_after(999_999_999));
    assert_eq!(cb.state(), &CircuitState::Open);
    assert_eq!(cb.failure_count(), 3);
    assert!(cb.allow_request_after(1_000_000_000));
    assert_eq!(cb.state(), &CircuitState::HalfOpen);
    assert!(cb.allow_request_after(0));
}

fn message(channel: &str, symbol: &str) -> BufferedMessage {
    BufferedMessage {
        channel: channel.to_string(),
        symbol: symbol.to_string(),
        data: "x".to_string(),
        sequence: None,
        received_at: std::time::Instant::now(),
        timestamp: 0,
    }
}

#[test]
fn every_processed_message_is_accounted() {
    let config = BackpressureConfig {
        max_buffer_size: 2,
        drop_policy: DropPolicy::Latest,
        coalesce_updates: true,
        ..Default::default()
    };
    let mut manager = BackpressureManager::with_config(config);
    let symbols = ["A", "B", "A", "C", "D", "B"];
    for symbol in symbols {
        let before = manager.get_stats("book").unwrap_or_default();
        let r = manager.process(message("book", symbol));
        let after = manager.get_stats("book").unwrap();
        assert_eq!(r.accepted, !r.dropped);
        assert!(!r.coalesced || r.accepted);
        assert_eq!(after.total_received, before.total_received + 1);
        assert_eq!(after.total_accepted, before.total_accepted + r.accepted as u64);
        assert_eq!(r.dropped_count, after.total_dropped);
        assert!(after.total_dropped >= before.total_dropped);
    }
    let stats = manager.get_stats("book").unwrap();
    assert_eq!(stats.total_received, 6);
    assert_eq!(stats.total_accepted + stats.total_dropped, 6);
}
