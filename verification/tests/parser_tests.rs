use kraken_ws_sdk::data::TradeSide;
use kraken_ws_sdk::error::{ParseError, ProcessingError};
use kraken_ws_sdk::parser::{seconds_of, JsonValue, KrakenDataParser, MessageHandler, MessageRoute};
use rust_decimal::Decimal;
use std::str::FromStr;

fn s(t: &str) -> JsonValue {
    JsonValue::Str(t.to_string())
}

fn arr(items: Vec<JsonValue>) -> JsonValue {
    JsonValue::Array(items)
}

fn obj(fields: Vec<(&str, JsonValue)>) -> JsonValue {
    JsonValue::Object(fields.into_iter().map(|(k, v)| (k.to_string(), v)).collect())
}

fn dec(t: &str) -> Decimal {
    Decimal::from_str(t).unwrap()
}

fn ticker_message(pair: &str) -> JsonValue {
    arr(vec![
        JsonValue::Number("340".to_string()),
        obj(vec![
            ("a", arr(vec![s("50001.5"), JsonValue::Number("1".to_string()), s("1.0")])),
            ("b", arr(vec![s("50000.1"), JsonValue::Number("2".to_string()), s("2.0")])),
            ("c", arr(vec![s("50000.9"), s("0.01")])),
            ("v", arr(vec![s("1234.5"), s("2345.6")])),
        ]),
        s("ticker"),
        s(pair),
    ])
}

#[test]
fn parses_ticker_and_maps_symbol() {
    let parser = KrakenDataParser::new();
    let t = parser.parse_ticker(&ticker_message("XBT/USD")).unwrap();
    assert_eq!(t.symbol, "BTC/USD");
    assert_eq!(t.bid, dec("50000.1"));
    assert_eq!(t.ask, dec("50001.5"));
    assert_eq!(t.last_price, dec("50000.9"));
    assert_eq!(t.volume, dec("1234.5"));
    let t = parser.parse_ticker(&ticker_message("ETH/EUR")).unwrap();
    assert_eq!(t.symbol, "ETH/EUR");
}

#[test]
fn ticker_errors() {
    let parser = KrakenDataParser::new();
    match parser.parse_ticker(&arr(vec![s("x")])) {
        Err(ParseError::MalformedMessage(m)) => assert_eq!(m, "Invalid ticker message format"),
        other => panic!("unexpected {:?}", other),
    }
    let bad_symbol = arr(vec![JsonValue::Null, obj(vec![]), s("ticker"), JsonValue::Null]);
    match parser.parse_ticker(&bad_symbol) {
        Err(ParseError::MissingField(m)) => assert_eq!(m, "symbol"),
        other => panic!("unexpected {:?}", other),
    }
    // missing fields read as zero
    let empty = arr(vec![JsonValue::Null, obj(vec![]), s("ticker"), s("ADA/USD")]);
    let t = parser.parse_ticker(&empty).unwrap();
    assert_eq!(t.bid, Decimal::ZERO);
}

#[test]
fn parses_orderbook_levels() {
    let parser = KrakenDataParser::new();
    let msg = arr(vec![
        JsonValue::Number("0".to_string()),
        obj(vec![
            ("b", arr(vec![arr(vec![s("100.5"), s("2"), s("1700000000.25")]), arr(vec![s("1")])])),
            ("a", arr(vec![arr(vec![s("101"), s("bad"), s("1700000001")])])),
        ]),
        s("book-10"),
        s("XBT/USD"),
    ]);
    let u = parser.parse_orderbook(&msg).unwrap();
    assert_eq!(u.symbol, "XBT/USD");
    assert_eq!(u.bids.len(), 1);
    assert_eq!(u.bids[0].price, dec("100.5"));
    assert_eq!(u.bids[0].timestamp, 1_700_000_000_000_000);
    assert_eq!(u.asks[0].volume, Decimal::ZERO);
    assert_eq!(u.asks[0].timestamp, 1_700_000_001_000_000);
    assert!(u.checksum.is_none());
}

#[test]
fn parses_trade_side_any_case() {
    let parser = KrakenDataParser::new();
    let trade = |side: &str| {
        arr(vec![
            JsonValue::Number("0".to_string()),
            arr(vec![arr(vec![s("5541.2"), s("0.15"), s("1534614057.3"), s(side), s("l"), s("")])]),
            s("trade"),
            s("XBT/USD"),
        ])
    };
    let t = parser.parse_trade(&trade("SELL")).unwrap();
    assert_eq!(t.side, TradeSide::Sell);
    assert_eq!(t.symbol, "BTC/USD");
    assert_eq!(t.timestamp, 1_534_614_057_000_000);
    assert_eq!(parser.parse_trade(&trade("b")).unwrap().side, TradeSide::Buy);
    match parser.parse_trade(&trade("hold")) {
        Err(ParseError::InvalidDataType(m)) => assert_eq!(m, "Invalid trade side: hold"),
        other => panic!("unexpected {:?}", other),
    }
}

#[test]
fn parses_ohlc() {
    let parser = KrakenDataParser::new();
    let o = arr(vec![
        JsonValue::Number("42".to_string()),
        arr(vec![
            s("1542057314.748456"),
            s("1"),
            s("3"),
            s("0.5"),
            s("2"),
            s("1.5"),
            s("100"),
            JsonValue::Number("7".to_string()),
        ]),
        s("ohlc-5"),
        s("XBT/USD"),
    ]);
    let d = parser.parse_ohlc(&o).unwrap();
    assert_eq!(d.high, dec("3"));
    assert_eq!(d.volume, dec("100"));
    assert_eq!(d.interval, "1m");
    assert_eq!(d.timestamp, 1_542_057_314_000_000);
    assert!(parser.parse_ohlc(&ticker_message("XBT/USD")).is_err());
}

#[test]
fn seconds_from_text() {
    assert_eq!(seconds_of("1700000000.123"), 1_700_000_000);
    assert_eq!(seconds_of("-2.9"), -2);
    assert_eq!(seconds_of("+7"), 7);
    assert_eq!(seconds_of(".5"), 0);
    assert_eq!(seconds_of("abc"), 0);
    assert_eq!(seconds_of("99999999999999999999"), i64::MAX);
    assert_eq!(seconds_of(""), 0);
}

#[test]
fn cleans_json_text() {
    let parser = KrakenDataParser::new();
    assert_eq!(parser.clean_json_data("  {\"a\":\n1,\t\"b\":\r2}\n "), "{\"a\":1,\"b\":2}");
}

#[test]
fn routes_messages() {
    let handler = MessageHandler::new(KrakenDataParser::new());
    match handler.handle_message("", None) {
        Err(ProcessingError::ProcessingFailed(m)) => assert_eq!(m, "Empty message received"),
        other => panic!("unexpected {:?}", other),
    }
    assert!(matches!(handler.handle_message("{\"event\":\"heartbeat\"}", None), Ok(MessageRoute::Status)));
    assert!(matches!(handler.handle_message("not json", None), Ok(MessageRoute::Unknown)));
    let m = ticker_message("XBT/USD");
    assert!(matches!(handler.handle_message("[340,{...}]", Some(&m)), Ok(MessageRoute::Ticker(_))));
}
