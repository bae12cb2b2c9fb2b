use kraken_ws_sdk::latency::{
    histogram_counts, order_statistics, LatencyAlertType, LatencyConfig, LatencyTracker,
};

fn now_micros() -> i64 {
    chrono::Utc::now().timestamp_micros()
}

#[test]
fn test_basic_recording() {
    let mut tracker = LatencyTracker::new();
    let exchange_ts = now_micros() - 50_000;

    let (measurement, _) = tracker.record(exchange_ts, "ticker", "BTC/USD").unwrap();

    assert!(measurement.network_latency_us > 0);
    assert!(measurement.total_latency_us >= measurement.network_latency_us);
}

#[test]
fn test_percentiles() {
    let mut tracker = LatencyTracker::new();
    for i in 1..=100 {
        let exchange_ts = now_micros() - i * 1000;
        tracker.record(exchange_ts, "ticker", "BTC/USD").unwrap();
    }
    let (_, _, total) = tracker.order_statistics();
    let total = total.unwrap();
    assert_eq!(tracker.total_samples().len(), 100);
    assert!(total.p50 > 0);
    assert!(total.p99 >= total.p50);
}

#[test]
fn test_histogram() {
    let mut tracker = LatencyTracker::new();
    for i in 1..=50 {
        let exchange_ts = now_micros() - i * 1000;
        tracker.record(exchange_ts, "ticker", "BTC/USD").unwrap();
    }
    let histogram = tracker.build_histogram();
    assert!(histogram.total_samples > 0);
    assert!(!histogram.counts.is_empty());
}

#[test]
fn explicit_recording_and_alerts() {
    let mut tracker = LatencyTracker::new();
    tracker.set_thresholds(1000, 500, 1200);
    let (m, alerts) = tracker.record_explicit(0, 1_500, 2_000, "ticker", "XBT/USD");
    assert_eq!(m.network_latency_us, 1_500);
    assert_eq!(m.processing_latency_us, 500);
    assert_eq!(m.total_latency_us, 2_000);
    assert_eq!(alerts.len(), 2);
    assert_eq!(alerts[0].alert_type, LatencyAlertType::HighNetworkLatency);
    assert_eq!(alerts[0].threshold_us, 1000);
    assert_eq!(alerts[1].alert_type, LatencyAlertType::HighTotalLatency);
    assert_eq!(alerts[1].latency_us, 2_000);
    assert_eq!(tracker.last().unwrap().symbol, "XBT/USD");
    tracker.reset();
    assert!(tracker.last().is_none());
    assert!(tracker.total_samples().is_empty());
}

#[test]
fn windows_keep_the_newest_samples() {
    let cfg = LatencyConfig { max_samples: 3, ..LatencyConfig::default() };
    let mut tracker = LatencyTracker::with_config(cfg);
    for i in 0..5 {
        tracker.record_explicit(0, i * 10, i * 10, "t", "s");
    }
    assert_eq!(tracker.network_samples(), vec![20, 30, 40]);
    assert_eq!(tracker.recent_count(), 5);
}

#[test]
fn order_statistics_pick_ranks() {
    let samples: Vec<i64> = (1..=10).rev().collect();
    let o = order_statistics(&samples).unwrap();
    assert_eq!(o.min, 1);
    assert_eq!(o.max, 10);
    assert_eq!(o.p50, 6);
    assert_eq!(o.p99, 10);
    assert_eq!(o.sum, 55);
    assert!(order_statistics(&vec![]).is_none());
}

#[test]
fn histogram_places_samples() {
    let h = histogram_counts(&vec![0, 999, 1000, 250_000, -5, -1500], 1000, 100);
    assert_eq!(h.counts.len(), 100);
    assert_eq!(h.counts[0], 3);
    assert_eq!(h.counts[1], 1);
    assert_eq!(h.counts[99], 2);
    assert_eq!(h.total_samples, 6);
}

#[test]
fn recent_count_counts_recorded_messages() {
    let mut t = LatencyTracker::new();
    assert_eq!(t.recent_count(), 0);
    let now = kraken_ws_sdk::clock::utc_now_micros();
    assert!(t.record(now, "ticker", "XBT/USD").is_some());
    assert!(t.record(now, "ticker", "XBT/USD").is_some());
    assert_eq!(t.recent_count(), 2);
}
