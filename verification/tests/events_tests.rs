use kraken_ws_sdk::data::{ConnectionState, DataType};
use kraken_ws_sdk::error::SdkError;
use kraken_ws_sdk::events::{callback_panic_message, CallbackRegistry, SdkEvent};

#[test]
fn registry_ids_and_counts() {
    let mut r: CallbackRegistry<&str> = CallbackRegistry::new();
    let a = r.register_callback(DataType::Ticker, "a");
    let b = r.register_callback(DataType::Ticker, "b");
    let c = r.register_connection_listener("c");
    let d = r.register_error_callback("d");
    assert_eq!((a, b, c, d), (1, 2, 3, 4));
    assert_eq!(r.get_callback_count(&DataType::Ticker), 2);
    assert_eq!(r.get_callback_count(&DataType::Trade), 0);
    assert_eq!(r.get_connection_listener_count(), 1);
    assert!(r.unregister_callback(DataType::Ticker, a));
    assert!(!r.unregister_callback(DataType::Ticker, a));
    assert!(!r.unregister_callback(DataType::Trade, b));
    assert_eq!(r.callbacks_for(DataType::Ticker), &vec![(2, "b")]);
    assert!(r.unregister_connection_listener(c));
    assert!(r.unregister_error_callback(d));
    assert!(r.error_callbacks().is_empty());
}

#[test]
fn event_kinds() {
    let e = SdkEvent::State(ConnectionState::Connected);
    assert!(e.symbol().is_none());
    assert!(!e.is_market_data());
    let err = SdkEvent::Error(SdkError::Network("x".to_string()));
    assert!(err.is_error());
}

#[test]
fn panic_message_text() {
    assert_eq!(callback_panic_message(7, 2, "ticker data"), "Callback 7 (index 2) panicked while processing ticker data");
}

#[test]
fn last_callback_id_tracks_registrations() {
    let mut r: CallbackRegistry<u8> = CallbackRegistry::new();
    assert_eq!(r.last_callback_id(), 0);
    let a = r.register_error_callback(1);
    let b = r.register_connection_listener(2);
    assert_eq!(a, 1);
    assert_eq!(b, 2);
    assert_eq!(r.last_callback_id(), 2);
}
