use kraken_ws_sdk::error::SdkError;
use kraken_ws_sdk::exchange::adapters::{create_adapter, BinanceAdapter, ExchangeAdapter, ExchangeManager, KrakenAdapter};
use kraken_ws_sdk::exchange::{Exchange, ExchangeStatus};

#[test]
fn kraken_adapter_connects_and_tracks_subscriptions() {
    let mut a = KrakenAdapter::new();
    assert_eq!(a.config().ws_endpoint, "wss://ws.kraken.com");
    assert_eq!(a.status(), ExchangeStatus::Disconnected);
    assert!(a.connect().is_ok());
    assert_eq!(a.status(), ExchangeStatus::Connected);
    assert!(a.subscribe_ticker(&"BTC/USD".to_string()).is_ok());
    assert!(a.subscribe_trades(&"BTC/USD".to_string()).is_ok());
    assert!(a.subscribe_orderbook(&"ETH/USD".to_string(), 10).is_ok());
    assert_eq!(a.subscribed_symbols(), vec!["BTC/USD".to_string(), "ETH/USD".to_string()]);
    assert!(a.unsubscribe(&"BTC/USD".to_string()).is_ok());
    assert_eq!(a.subscribed_symbols(), vec!["ETH/USD".to_string()]);
    assert!(a.disconnect().is_ok());
    assert_eq!(a.status(), ExchangeStatus::Disconnected);
    assert!(a.subscribed_symbols().is_empty());
}

#[test]
fn binance_adapter_is_a_stub() {
    let mut b = BinanceAdapter::new();
    assert_eq!(b.config().ws_endpoint, "wss://stream.binance.com:9443/ws");
    assert_eq!(b.exchange(), Exchange::Binance);
    match b.connect() {
        Err(SdkError::NotImplemented(m)) => assert_eq!(m, "Binance adapter"),
        other => panic!("unexpected {:?}", other),
    }
    match b.subscribe_ticker(&"BTC/USD".to_string()) {
        Err(SdkError::NotImplemented(m)) => assert_eq!(m, "Binance ticker subscription"),
        other => panic!("unexpected {:?}", other),
    }
    match b.subscribe_trades(&"BTC/USD".to_string()) {
        Err(SdkError::NotImplemented(m)) => assert_eq!(m, "Binance trades subscription"),
        other => panic!("unexpected {:?}", other),
    }
    match b.subscribe_orderbook(&"BTC/USD".to_string(), 5) {
        Err(SdkError::NotImplemented(m)) => assert_eq!(m, "Binance orderbook subscription"),
        other => panic!("unexpected {:?}", other),
    }
    assert_eq!(b.status(), ExchangeStatus::NotImplemented);
    assert!(b.disconnect().is_ok());
}

#[test]
fn factory_falls_back_to_coinbase_stub() {
    assert_eq!(create_adapter(Exchange::Kraken).exchange(), Exchange::Kraken);
    assert_eq!(create_adapter(Exchange::Binance).exchange(), Exchange::Binance);
    assert_eq!(create_adapter(Exchange::Coinbase).exchange(), Exchange::Coinbase);
    assert_eq!(create_adapter(Exchange::FTX).exchange(), Exchange::Coinbase);
    assert_eq!(create_adapter(Exchange::Bybit).status(), ExchangeStatus::NotImplemented);
}

#[test]
fn manager_replaces_an_exchange_and_connects_all() {
    let mut m = ExchangeManager::new();
    m.add_exchange(create_adapter(Exchange::Binance));
    m.add_exchange(create_adapter(Exchange::Kraken));
    m.add_exchange(ExchangeAdapter::Kraken(KrakenAdapter::new()));
    assert_eq!(m.exchanges(), vec![Exchange::Binance, Exchange::Kraken]);
    let results = m.connect_all();
    assert_eq!(results.len(), 2);
    assert_eq!(results[0].0, Exchange::Binance);
    assert!(results[0].1.is_err());
    assert_eq!(results[1].0, Exchange::Kraken);
    assert!(results[1].1.is_ok());
    assert_eq!(m.get(Exchange::Kraken).map(|a| a.status()), Some(ExchangeStatus::Connected));
    assert!(m.get(Exchange::Coinbase).is_none());
    let down = m.disconnect_all();
    assert!(down.iter().all(|(_, r)| r.is_ok()));
    assert_eq!(m.get(Exchange::Kraken).map(|a| a.status()), Some(ExchangeStatus::Disconnected));
}
