use kraken_ws_sdk::exchange::{
    kraken_capabilities, BinanceSymbolMapper, CoinbaseAdapter, Exchange, ExchangeConfig, ExchangeStatus,
    KrakenSymbolMapper, SubscribedSymbols, SymbolMapper,
};
use kraken_ws_sdk::exchange::adapters::{BinanceAdapter, ExchangeAdapter, ExchangeManager, KrakenAdapter};
use kraken_ws_sdk::text::{replace_all, trim_end_all, u64_to_decimal, i64_to_decimal};

#[test]
fn test_kraken_symbol_mapper() {
    let mapper = KrakenSymbolMapper;
    assert_eq!(mapper.to_native(&"BTC/USD".to_string()), "XBT/USD");
    assert_eq!(mapper.from_native(&"XBT/USD".to_string()), "BTC/USD");
}

#[test]
fn test_binance_symbol_mapper() {
    let mapper = BinanceSymbolMapper;
    assert_eq!(mapper.to_native(&"BTC/USD".to_string()), "BTCUSDT");
    assert_eq!(mapper.from_native(&"BTCUSDT".to_string()), "BTC/USD");
}

#[test]
fn test_exchange_capabilities() {
    let kraken = KrakenAdapter::new();
    let caps = kraken.capabilities();
    assert!(caps.supports_ticker);
    assert!(caps.supports_orderbook);
    assert_eq!(caps.max_orderbook_depth, kraken_capabilities().max_orderbook_depth);
}

#[test]
fn test_exchange_manager() {
    let mut manager = ExchangeManager::new();
    manager.add_exchange(ExchangeAdapter::Kraken(KrakenAdapter::new()));
    manager.add_exchange(ExchangeAdapter::Binance(BinanceAdapter::new()));

    assert_eq!(manager.exchanges().len(), 2);

    let statuses = manager.status_all();
    let kraken = statuses.iter().find(|(e, _)| *e == Exchange::Kraken).map(|(_, s)| *s);
    let binance = statuses.iter().find(|(e, _)| *e == Exchange::Binance).map(|(_, s)| *s);
    assert_eq!(kraken, Some(ExchangeStatus::Disconnected));
    assert_eq!(binance, Some(ExchangeStatus::NotImplemented));
}

#[test]
fn mapping_edge_cases() {
    let b = BinanceSymbolMapper;
    assert_eq!(b.from_native(&"ETHBTC".to_string()), "ETHBTC");
    assert_eq!(b.from_native(&"USDTUSDT".to_string()), "/USD");
    assert_eq!(b.to_native(&"USD/USD".to_string()), "USDTUSDT");
    let k = KrakenSymbolMapper;
    assert_eq!(k.to_native(&"BTCBTC/BT".to_string()), "XBTXBT/BT");
    assert_eq!(replace_all("aaaa", "aa", "b"), "bb");
    assert_eq!(replace_all("aaa", "aa", "b"), "ba");
    assert_eq!(trim_end_all("xabab", "ab"), "x");
    assert_eq!(u64_to_decimal(0), "0");
    assert_eq!(u64_to_decimal(18446744073709551615), "18446744073709551615");
    assert_eq!(i64_to_decimal(-9223372036854775808), "-9223372036854775808");
    assert_eq!(i64_to_decimal(-42), "-42");
}

#[test]
fn exchange_names_and_config() {
    assert_eq!(Exchange::Coinbase.name(), "Coinbase");
    let c = ExchangeConfig::default();
    assert_eq!(c.ws_endpoint, "wss://ws.kraken.com");
    assert_eq!(c.max_reconnect_attempts, 10);
}

#[test]
fn subscriptions_keep_order_without_duplicates() {
    let mut s = SubscribedSymbols::new();
    s.add(&"A".to_string());
    s.add(&"B".to_string());
    s.add(&"A".to_string());
    s.add(&"C".to_string());
    assert_eq!(s.to_vec(), vec!["A".to_string(), "B".to_string(), "C".to_string()]);
    s.remove(&"B".to_string());
    assert_eq!(s.to_vec(), vec!["A".to_string(), "C".to_string()]);
    let mut cb = CoinbaseAdapter::new();
    assert_eq!(cb.status(), ExchangeStatus::NotImplemented);
    let _ = cb.unsubscribe(&"X".to_string());
    assert!(cb.subscribed_symbols().is_empty());
    assert!(!cb.capabilities().supports_ohlc);
}

#[test]
fn symbols_are_normalized() {
    assert_eq!(kraken_ws_sdk::exchange::normalize_symbol("XBT-usd"), "BTC/USD");
    assert_eq!(kraken_ws_sdk::exchange::normalize_symbol("xbt-usd"), "XBT/USD");
    assert_eq!(kraken_ws_sdk::exchange::normalize_symbol("ETH/EUR"), "ETH/EUR");
}
