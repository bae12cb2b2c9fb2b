use kraken_ws_sdk::sequencing::{ResyncReason, SequenceConfig, SequenceEvent, SequenceManager};

#[test]
fn test_in_order_messages() {
    let mut manager = SequenceManager::new();

    let r1 = manager.validate("test", 1, "msg1");
    assert!(r1.in_order);
    assert_eq!(r1.state.last_sequence, 1);

    let r2 = manager.validate("test", 2, "msg2");
    assert!(r2.in_order);
    assert_eq!(r2.state.last_sequence, 2);

    let r3 = manager.validate("test", 3, "msg3");
    assert!(r3.in_order);
    assert_eq!(r3.state.last_sequence, 3);
}

#[test]
fn test_gap_detection() {
    let mut manager = SequenceManager::new();

    let r1 = manager.validate("test", 1, "msg1");
    assert!(r1.in_order);

    // Skip sequence 2, send 3
    let r3 = manager.validate("test", 3, "msg3");
    assert!(!r3.in_order);
    assert!(r3.state.gap_detected);
    assert_eq!(r3.gap_size, 1);
    assert_eq!(r3.expected, 2);
}

#[test]
fn test_gap_recovery() {
    let mut manager = SequenceManager::new();

    manager.validate("test", 1, "msg1");
    manager.validate("test", 3, "msg3"); // Gap

    // Fill the gap
    let r2 = manager.validate("test", 2, "msg2");
    assert!(r2.in_order);

    // Now sequence 3 should be processed from pending
    let state = manager.get_state("test").unwrap();
    assert_eq!(state.last_sequence, 3);
}

#[test]
fn test_resync_on_large_gap() {
    let config = SequenceConfig {
        max_gap_size: 5,
        auto_resync: true,
        ..Default::default()
    };
    let mut manager = SequenceManager::with_config(config);

    manager.validate("test", 1, "msg1");

    // Large gap triggers resync
    let result = manager.validate("test", 100, "msg100");
    assert!(!result.in_order);
    assert!(result.resync_triggered);
}

#[test]
fn test_multiple_channels() {
    let mut manager = SequenceManager::new();

    manager.validate("btc", 1, "btc1");
    manager.validate("eth", 1, "eth1");
    manager.validate("btc", 2, "btc2");
    manager.validate("eth", 2, "eth2");

    let btc_state = manager.get_state("btc").unwrap();
    let eth_state = manager.get_state("eth").unwrap();

    assert_eq!(btc_state.last_sequence, 2);
    assert_eq!(eth_state.last_sequence, 2);
}

#[test]
fn gap_and_resync_events_are_queued_in_order() {
    let mut manager = SequenceManager::with_config(SequenceConfig { max_gap_size: 5, ..Default::default() });
    manager.validate("c", 10, "a");
    manager.validate("c", 12, "b");
    manager.validate("c", 40, "c");
    let events = manager.take_events();
    assert_eq!(events.len(), 3);
    match &events[0] {
        SequenceEvent::Gap(g) => {
            assert_eq!(g.channel, "c");
            assert_eq!(g.expected_sequence, 11);
            assert_eq!(g.received_sequence, 12);
            assert_eq!(g.gap_size, 1);
        }
        _ => panic!("expected a gap"),
    }
    assert!(matches!(&events[1], SequenceEvent::Gap(g) if g.gap_size == 29));
    match &events[2] {
        SequenceEvent::Resync(r) => {
            assert_eq!(r.last_good_sequence, 10);
            assert_eq!(r.reason, ResyncReason::GapTooLarge { gap_size: 29 });
        }
        _ => panic!("expected a resync"),
    }
    assert!(manager.take_events().is_empty());
}

#[test]
fn too_many_pending_triggers_resync() {
    let mut manager = SequenceManager::with_config(SequenceConfig { max_pending_messages: 2, ..Default::default() });
    manager.validate("c", 1, "a");
    assert!(!manager.validate("c", 3, "x").resync_triggered);
    assert!(!manager.validate("c", 4, "x").resync_triggered);
    let r = manager.validate("c", 5, "x");
    assert!(r.resync_triggered);
    // the held-back messages were dropped: filling the gap releases nothing
    let r2 = manager.validate("c", 2, "y");
    assert!(r2.in_order);
    assert_eq!(r2.state.last_sequence, 2);
}

#[test]
fn stale_messages_change_nothing() {
    let mut manager = SequenceManager::new();
    manager.validate("c", 5, "a");
    let r = manager.validate("c", 3, "old");
    assert!(!r.in_order);
    assert_eq!(r.gap_size, 0);
    assert_eq!(r.state.last_sequence, 5);
    assert_eq!(r.state.messages_processed, 1);
}

#[test]
fn reset_and_manual_resync() {
    let mut manager = SequenceManager::new();
    manager.validate("c", 1, "a");
    manager.validate("c", 3, "b");
    manager.request_resync("c");
    let st = manager.get_state("c").unwrap();
    assert!(st.resync_triggered);
    assert!(manager.can_validate("c", 2));
    manager.reset("c");
    assert!(manager.get_state("c").is_none());
    manager.validate("d", 1, "a");
    manager.reset_all();
    assert!(manager.get_state("d").is_none());
}

#[test]
fn stats_and_all_states_cover_every_channel() {
    let mut manager = SequenceManager::new();
    manager.validate("btc", 1, "a");
    manager.validate("btc", 2, "b");
    manager.validate("eth", 1, "c");
    manager.validate("eth", 3, "d");
    let st = manager.stats();
    assert_eq!(st.total_channels, 2);
    assert_eq!(st.total_messages, 3);
    assert_eq!(st.total_gaps, 1);
    assert_eq!(st.channels_with_gaps, 1);
    let all = manager.get_all_states();
    assert_eq!(all.len(), 2);
    assert_eq!(all[0].0, "btc");
    assert_eq!(all[0].1.last_sequence, 2);
    assert_eq!(all[1].0, "eth");
    assert_eq!(all[1].1.total_gaps, 1);
}
