use kraken_ws_sdk::data::ConnectionState;
use kraken_ws_sdk::sdk::{KrakenSDK, KrakenSDKBuilder};

type Sdk = KrakenSDK<&'static str, &'static str, &'static str>;

#[test]
fn builder_settings_reach_the_sdk() {
    let sdk: Sdk = KrakenSDKBuilder::new().endpoint("wss://example").auto_reconnect(false).max_reconnect_attempts(3).build();
    assert_eq!(sdk.state(), ConnectionState::Disconnected);
    assert!(!sdk.is_connected());
    assert!(sdk.subscribed_pairs().is_empty());
}

#[test]
fn routing_by_pair_and_wildcard() {
    let mut sdk: Sdk = KrakenSDKBuilder::default().build();
    sdk.subscribe_ticker("BTC/USD", "t1");
    sdk.subscribe_ticker("*", "t2");
    sdk.subscribe_ticker("ETH/USD", "t3");
    sdk.subscribe_orderbook("ETH/USD", 10, "b1");
    sdk.subscribe_trades("BTC/USD", "r1");
    assert_eq!(sdk.ticker_targets("BTC/USD"), vec![&"t1", &"t2"]);
    assert_eq!(sdk.ticker_targets("XRP/USD"), vec![&"t2"]);
    assert_eq!(sdk.orderbook_targets("ETH/USD"), vec![&"b1"]);
    assert!(sdk.trade_targets("ETH/USD").is_empty());
    assert_eq!(sdk.subscribed_pairs(), vec!["BTC/USD".to_string(), "*".to_string(), "ETH/USD".to_string()]);
}

#[test]
fn unsubscribe_removes_every_handler_of_a_pair() {
    let mut sdk: Sdk = KrakenSDKBuilder::new().build();
    sdk.subscribe_ticker("BTC/USD", "t1");
    sdk.subscribe_orderbook("BTC/USD", 5, "b1");
    sdk.subscribe_trades("ETH/USD", "r1");
    sdk.unsubscribe("BTC/USD");
    assert!(sdk.ticker_targets("BTC/USD").is_empty());
    assert!(sdk.orderbook_targets("BTC/USD").is_empty());
    assert_eq!(sdk.subscribed_pairs(), vec!["ETH/USD".to_string()]);
}

#[test]
fn connect_and_disconnect() {
    let mut sdk: Sdk = KrakenSDKBuilder::new().build();
    assert!(sdk.connect().is_ok());
    assert!(sdk.is_connected());
    assert!(sdk.disconnect().is_ok());
    assert_eq!(sdk.state(), ConnectionState::Disconnected);
}
