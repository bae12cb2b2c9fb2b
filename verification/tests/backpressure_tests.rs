use kraken_ws_sdk::backpressure::{
    BackpressureConfig, BackpressureEvent, BackpressureManager, BufferedMessage, DropPolicy, DropReason,
    Moment,
};
use std::time::Instant;

fn make_message(channel: &str, symbol: &str) -> BufferedMessage {
    BufferedMessage {
        channel: channel.to_string(),
        symbol: symbol.to_string(),
        data: "test".to_string(),
        sequence: Some(1),
        received_at: Instant::now(),
        timestamp: chrono::Utc::now().timestamp_micros(),
    }
}

fn numbered(channel: &str, i: u64) -> BufferedMessage {
    BufferedMessage {
        channel: channel.to_string(),
        symbol: format!("SYM{}", i),
        data: "test".to_string(),
        sequence: Some(i),
        received_at: Instant::now(),
        timestamp: chrono::Utc::now().timestamp_micros(),
    }
}

fn at(micros: u64) -> Moment {
    Moment { since_start_micros: micros, wall_micros: 1_700_000_000_000_000, pick: 7 }
}

#[test]
fn test_basic_accept() {
    let mut manager = BackpressureManager::new();
    let msg = make_message("ticker", "BTC/USD");
    let result = manager.process(msg);

    assert!(result.accepted);
    assert!(!result.dropped);
}

#[test]
fn test_coalescing() {
    let config = BackpressureConfig { coalesce_updates: true, ..Default::default() };
    let mut manager = BackpressureManager::with_config(config);

    let msg1 = make_message("ticker", "BTC/USD");
    let msg2 = make_message("ticker", "BTC/USD");

    let r1 = manager.process(msg1);
    let r2 = manager.process(msg2);

    assert!(r1.accepted);
    assert!(r2.accepted);
    assert!(r2.coalesced);
}

#[test]
fn test_buffer_limit() {
    let config = BackpressureConfig {
        max_buffer_size: 5,
        coalesce_updates: false,
        drop_policy: DropPolicy::Latest,
        ..Default::default()
    };
    let mut manager = BackpressureManager::with_config(config);

    for i in 0..5 {
        manager.process(numbered("ticker", i));
    }

    let msg = make_message("ticker", "OVERFLOW");
    let result = manager.process(msg);

    assert!(!result.accepted);
    assert!(result.dropped);
}

#[test]
fn test_drop_policy_oldest() {
    let config = BackpressureConfig {
        max_buffer_size: 3,
        coalesce_updates: false,
        drop_policy: DropPolicy::Oldest,
        ..Default::default()
    };
    let mut manager = BackpressureManager::with_config(config);

    for i in 0..3 {
        manager.process(numbered("ticker", i));
    }

    let msg = make_message("ticker", "NEW");
    let result = manager.process(msg);

    assert!(result.accepted);
    assert_eq!(result.dropped_count, 1);
}

#[test]
fn backpressure_test_stats() {
    let mut manager = BackpressureManager::new();

    for _ in 0..10 {
        let msg = make_message("ticker", "BTC/USD");
        manager.process(msg);
    }

    let stats = manager.global_stats();
    assert_eq!(stats.total_received, 10);
    assert_eq!(stats.total_accepted, 10);
}

#[test]
fn oldest_policy_pops_in_arrival_order() {
    let config = BackpressureConfig {
        max_buffer_size: 2,
        coalesce_updates: false,
        drop_policy: DropPolicy::Oldest,
        ..Default::default()
    };
    let mut manager = BackpressureManager::with_config(config);
    for i in 0..4 {
        manager.process_at(numbered("book", i), at(i));
    }
    // SYM0 and SYM1 were pushed out; SYM2 then SYM3 remain, in order.
    assert_eq!(manager.pop("book").unwrap().symbol, "SYM2");
    assert_eq!(manager.pop("book").unwrap().symbol, "SYM3");
    assert!(manager.pop("book").is_none());
    assert!(manager.pop("unknown").is_none());
    let events = manager.take_events();
    assert_eq!(events.len(), 2);
    match &events[0] {
        BackpressureEvent::Drop(d) => {
            assert_eq!(d.symbol, "SYM0");
            assert_eq!(d.reason, DropReason::BufferFull { size: 1, max: 2 });
            assert_eq!(d.dropped_count, 1);
        }
        _ => panic!("expected a drop event"),
    }
}

#[test]
fn rate_limit_with_latest_rejects_and_reports() {
    let config = BackpressureConfig {
        max_messages_per_second: 2,
        burst_allowance: 1,
        rate_window_ms: 1000,
        drop_policy: DropPolicy::Latest,
        coalesce_updates: false,
        max_buffer_size: 100,
    };
    let mut manager = BackpressureManager::with_config(config);
    // Three messages inside one window reach the limit of 2 + 1.
    for i in 0..3 {
        let r = manager.process_at(numbered("trade", i), at(10 * i));
        assert!(r.accepted);
    }
    let r = manager.process_at(numbered("trade", 3), at(40));
    assert!(!r.accepted);
    assert!(r.dropped);
    assert_eq!(r.window_messages, 3);
    let events = manager.take_events();
    assert_eq!(events.len(), 2);
    match &events[0] {
        BackpressureEvent::RateLimit(e) => {
            assert_eq!(e.action_taken, "Applying Latest policy");
            assert_eq!(e.limit, 2);
        }
        _ => panic!("expected a rate-limit event"),
    }
    // Once the window has passed the channel accepts again.
    let r = manager.process_at(numbered("trade", 4), at(2_000_000));
    assert!(r.accepted);
    assert_eq!(r.window_messages, 0);
}

#[test]
fn block_policy_never_drops() {
    let config = BackpressureConfig {
        max_messages_per_second: 1,
        burst_allowance: 0,
        rate_window_ms: 1000,
        drop_policy: DropPolicy::Block,
        coalesce_updates: false,
        max_buffer_size: 1,
    };
    let mut manager = BackpressureManager::with_config(config);
    for i in 0..5 {
        let r = manager.process_at(numbered("ohlc", i), at(i));
        assert!(r.accepted);
        assert_eq!(r.dropped_count, 0);
        assert_eq!(r.queue_depth, (i + 1) as usize);
    }
}

#[test]
fn coalescing_keeps_latest_and_counts() {
    let mut manager = BackpressureManager::new();
    let mut a = make_message("ticker", "ETH/USD");
    a.sequence = Some(1);
    let mut b = make_message("ticker", "ETH/USD");
    b.sequence = Some(2);
    manager.process_at(a, at(0));
    let r = manager.process_at(b, at(1));
    assert!(r.coalesced);
    assert_eq!(r.coalesced_count, 1);
    assert_eq!(r.queue_depth, 1);
    let events = manager.take_events();
    match &events[0] {
        BackpressureEvent::Coalesce(c) => {
            assert_eq!(c.old_sequence, Some(1));
            assert_eq!(c.new_sequence, Some(2));
        }
        _ => panic!("expected a coalesce event"),
    }
    assert_eq!(manager.pop("ticker").unwrap().sequence, Some(2));
    let stats = manager.get_stats("ticker").unwrap();
    assert_eq!(stats.total_received, 2);
    assert_eq!(stats.total_coalesced, 1);
    assert!(manager.get_stats("trade").is_none());
}

#[test]
fn reset_and_clear() {
    let config = BackpressureConfig { coalesce_updates: false, ..Default::default() };
    let mut manager = BackpressureManager::with_config(config);
    manager.process_at(numbered("a", 1), at(0));
    manager.process_at(numbered("b", 2), at(0));
    let g = manager.global_stats();
    assert_eq!(g.total_received, 2);
    assert_eq!(g.current_queue_depth, 2);
    manager.clear();
    assert!(manager.pop("a").is_none());
    manager.reset_stats();
    let g = manager.global_stats();
    assert_eq!(g.total_received, 0);
    assert_eq!(g.current_queue_depth, 0);
    assert!(manager.can_process("a"));
    assert_eq!(manager.config().max_buffer_size, 10000);
}
