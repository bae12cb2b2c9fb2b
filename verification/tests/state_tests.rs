use kraken_ws_sdk::state::{ClosedReason, ConnectionState, StateMachine, StateMachineConfig, StateError, TransitionTrigger};

#[test]
fn test_happy_path() {
    let mut sm = StateMachine::new(StateMachineConfig::default());

    assert_eq!(*sm.state(), ConnectionState::Disconnected);

    sm.connect().unwrap();
    assert!(matches!(*sm.state(), ConnectionState::Connecting));

    sm.connection_established().unwrap();
    assert!(matches!(*sm.state(), ConnectionState::Subscribing));

    sm.subscriptions_confirmed().unwrap();
    assert!(matches!(*sm.state(), ConnectionState::Subscribed));
    assert!(sm.is_connected());

    sm.close().unwrap();
    assert!(matches!(*sm.state(), ConnectionState::Closed { .. }));
    assert!(sm.is_terminal());
}

#[test]
fn test_retry_with_backoff() {
    let mut sm = StateMachine::new(StateMachineConfig {
        max_retries: 3,
        ..Default::default()
    });

    sm.connect().unwrap();
    sm.connection_failed("network error".to_string()).unwrap();

    assert!(matches!(*sm.state(), ConnectionState::Degraded { .. }));

    // Retry 1
    sm.retry().unwrap();
    assert!(matches!(*sm.state(), ConnectionState::Connecting));
    sm.connection_failed("still failing".to_string()).unwrap();

    // Retry 2
    sm.retry().unwrap();
    sm.connection_failed("still failing".to_string()).unwrap();

    // Retry 3
    sm.retry().unwrap();
    sm.connection_failed("still failing".to_string()).unwrap();

    // Retry 4 - should exceed max
    sm.retry().unwrap();
    assert!(matches!(*sm.state(), ConnectionState::Closed { reason: ClosedReason::MaxRetriesExceeded }));
}

#[test]
fn test_gap_detection_and_resync() {
    let mut sm = StateMachine::new(StateMachineConfig::default());

    sm.connect().unwrap();
    sm.connection_established().unwrap();
    sm.subscriptions_confirmed().unwrap();

    // Gap detected
    sm.gap_detected(100, 105).unwrap();
    assert!(matches!(*sm.state(), ConnectionState::Resyncing));

    // Resync complete
    sm.resync_complete().unwrap();
    assert!(matches!(*sm.state(), ConnectionState::Subscribed));
}

#[test]
fn test_invalid_transitions() {
    let mut sm = StateMachine::new(StateMachineConfig::default());

    // Can't establish connection when disconnected
    assert!(sm.connection_established().is_err());

    // Can't resync when not subscribed
    assert!(sm.resync_complete().is_err());
}

#[test]
fn refused_transition_names_state_and_action() {
    let mut sm = StateMachine::new(StateMachineConfig::default());
    match sm.gap_detected(1, 3) {
        Err(StateError::InvalidTransition { from, action }) => {
            assert_eq!(from, ConnectionState::Disconnected);
            assert_eq!(action, "gap_detected");
        }
        _ => panic!("expected a refusal"),
    }
    assert_eq!(*sm.state(), ConnectionState::Disconnected);
    assert_eq!(sm.history().len(), 0);
}

#[test]
fn close_twice_is_refused() {
    let mut sm = StateMachine::new(StateMachineConfig::default());
    sm.close().unwrap();
    assert_eq!(sm.close().unwrap_err(), StateError::AlreadyClosed);
    // a closed machine can connect again
    let t = sm.connect().unwrap();
    assert_eq!(t.to, ConnectionState::Connecting);
    assert_eq!(t.trigger, TransitionTrigger::UserConnect);
}

#[test]
fn authentication_path_when_required() {
    let mut sm = StateMachine::new(StateMachineConfig { requires_auth: true, ..Default::default() });
    sm.connect().unwrap();
    sm.connection_established().unwrap();
    assert_eq!(*sm.state(), ConnectionState::Authenticating);
    sm.auth_failed("bad key".to_string()).unwrap();
    assert!(matches!(*sm.state(), ConnectionState::Degraded { retry_count: 0, .. }));
    sm.retry().unwrap();
    assert_eq!(sm.retry_count(), 1);
    sm.connection_established().unwrap();
    assert_eq!(sm.retry_count(), 0);
    sm.auth_success().unwrap();
    assert_eq!(*sm.state(), ConnectionState::Subscribing);
    sm.server_disconnect(1006, "gone".to_string()).unwrap();
    assert!(matches!(*sm.state(), ConnectionState::Degraded { .. }));
}

#[test]
fn history_is_bounded_and_records_last() {
    let mut sm = StateMachine::new(StateMachineConfig::default());
    sm.connect().unwrap();
    sm.connection_established().unwrap();
    sm.subscriptions_confirmed().unwrap();
    for i in 0..120u64 {
        sm.gap_detected(i, i + 2).unwrap();
        sm.resync_complete().unwrap();
    }
    assert_eq!(sm.history().len(), 100);
    let last = sm.history().last().unwrap();
    assert_eq!(last.from, ConnectionState::Resyncing);
    assert_eq!(last.to, ConnectionState::Subscribed);
}
