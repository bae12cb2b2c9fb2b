use kraken_ws_sdk::connection::validate_auth_response_text;
use kraken_ws_sdk::data::{Channel, TradeSide};
use kraken_ws_sdk::error::{ConnectionError, ParseError, SdkError, SubscriptionError};
use kraken_ws_sdk::parser::{JsonValue, KrakenDataParser, MessageHandler, MessageRoute};
use kraken_ws_sdk::private_ws::{read_private_message_text, PrivateMessage};
use kraken_ws_sdk::subscription::SubscriptionManager;
use rust_decimal::Decimal;
use std::str::FromStr;

fn dec(t: &str) -> Decimal {
    Decimal::from_str(t).unwrap()
}

const TICKER: &str = "[340,{\"a\":[\"50001.5\",1,\"1.0\"],\"b\":[\"50000.1\",2,\"2.0\"],\"c\":[\"50000.9\",\"0.01\"],\"v\":[\"1234.5\",\"2345.6\"]},\"ticker\",\"XBT/USD\"]";

#[test]
fn robust_parse_reads_json_values() {
    let parser = KrakenDataParser::new();
    match parser.parse_json_robust("{\"a\":[1,true,null,\"x\"]}").unwrap() {
        JsonValue::Object(fields) => {
            assert_eq!(fields.len(), 1);
            assert_eq!(fields[0].0, "a");
            match &fields[0].1 {
                JsonValue::Array(items) => {
                    assert_eq!(items.len(), 4);
                    assert!(matches!(&items[0], JsonValue::Number(n) if n == "1"));
                    assert!(matches!(&items[1], JsonValue::Bool(true)));
                    assert!(matches!(&items[2], JsonValue::Null));
                    assert!(matches!(&items[3], JsonValue::Str(t) if t == "x"));
                },
                other => panic!("unexpected {:?}", other),
            }
        },
        other => panic!("unexpected {:?}", other),
    }
}

#[test]
fn robust_parse_retries_on_cleaned_text() {
    let parser = KrakenDataParser::new();
    // a raw newline inside a string is not JSON; the cleaned text is
    match parser.parse_json_robust("[\"a\nb\"]").unwrap() {
        JsonValue::Array(items) => assert!(matches!(&items[0], JsonValue::Str(t) if t == "ab")),
        other => panic!("unexpected {:?}", other),
    }
}

#[test]
fn robust_parse_reports_first_error() {
    let parser = KrakenDataParser::new();
    match parser.parse_json_robust("not json") {
        Err(ParseError::InvalidJson(m)) => {
            assert!(m.starts_with("JSON parsing failed: "));
            assert!(m.len() > "JSON parsing failed: ".len());
        },
        other => panic!("unexpected {:?}", other),
    }
}

#[test]
fn ticker_from_text() {
    let parser = KrakenDataParser::new();
    let t = parser.parse_ticker_text(TICKER).unwrap();
    assert_eq!(t.symbol, "BTC/USD");
    assert_eq!(t.bid, dec("50000.1"));
    assert_eq!(t.ask, dec("50001.5"));
    assert_eq!(t.last_price, dec("50000.9"));
    assert_eq!(t.volume, dec("1234.5"));
    assert!(matches!(parser.parse_ticker_text("{"), Err(ParseError::InvalidJson(_))));
    match parser.parse_ticker_text("{\"event\":\"heartbeat\"}") {
        Err(ParseError::MalformedMessage(m)) => assert_eq!(m, "Invalid ticker message format"),
        other => panic!("unexpected {:?}", other),
    }
}

#[test]
fn orderbook_from_text() {
    let parser = KrakenDataParser::new();
    let text = "[0,{\"b\":[[\"100.5\",\"2\",\"1700000000.25\"]],\"a\":[[\"101\",\"1\",\"1700000001\"]]},\"book-10\",\"XBT/USD\"]";
    let u = parser.parse_orderbook_text(text).unwrap();
    assert_eq!(u.symbol, "XBT/USD");
    assert_eq!(u.bids[0].price, dec("100.5"));
    assert_eq!(u.asks[0].price, dec("101"));
    assert_eq!(u.asks[0].timestamp, 1_700_000_001_000_000);
    let again = parser.book_update(text).unwrap();
    assert_eq!(again.bids[0].volume, dec("2"));
    // the same message read only when it mentions a book
    let renamed = text.replace("book-10", "depth");
    assert!(parser.parse_orderbook_text(&renamed).is_ok());
    assert!(parser.book_update(&renamed).is_none());
    assert!(parser.book_update("book but not json").is_none());
}

#[test]
fn trade_from_text() {
    let parser = KrakenDataParser::new();
    let text = "[0,[[\"5541.2\",\"0.15\",\"1534614057.3\",\"s\",\"l\",\"\"]],\"trade\",\"XBT/USD\"]";
    let t = parser.parse_trade_text(text).unwrap();
    assert_eq!(t.side, TradeSide::Sell);
    assert_eq!(t.price, dec("5541.2"));
    assert_eq!(t.timestamp, 1_534_614_057_000_000);
}

#[test]
fn ohlc_from_text() {
    let parser = KrakenDataParser::new();
    let text = "[42,[\"1542057314.748456\",\"1\",\"3\",\"0.5\",\"2\",\"1.5\",\"100\",7],\"ohlc-5\",\"XBT/USD\"]";
    let d = parser.parse_ohlc_text(text).unwrap();
    assert_eq!(d.open, dec("1"));
    assert_eq!(d.low, dec("0.5"));
    assert_eq!(d.close, dec("2"));
    assert_eq!(d.interval, "1m");
}

#[test]
fn routes_message_text() {
    let handler = MessageHandler::new(KrakenDataParser::new());
    match handler.handle_message_text(TICKER) {
        Ok(MessageRoute::Ticker(t)) => assert_eq!(t.bid, dec("50000.1")),
        other => panic!("unexpected {:?}", other),
    }
    assert!(matches!(handler.handle_message_text("{\"event\":\"heartbeat\"}"), Ok(MessageRoute::Status)));
    assert!(matches!(handler.handle_message_text("garbage"), Ok(MessageRoute::Unknown)));
    assert!(handler.handle_message_text("").is_err());
}

#[test]
fn subscription_confirmation_from_text() {
    let mut m = SubscriptionManager::new();
    let channel = Channel::new("ticker");
    let reply = "{\"event\":\"subscriptionStatus\",\"status\":\"subscribed\",\"subscription\":{\"name\":\"ticker\"}}";
    assert!(m.handle_subscription_confirmation_text(reply).is_ok());
    assert!(m.is_subscribed(&channel));
    match m.handle_subscription_confirmation_text("oops") {
        Err(SubscriptionError::SubscriptionFailed(t)) => assert!(t.starts_with("Invalid confirmation message: ")),
        other => panic!("unexpected {:?}", other),
    }
    let failed = "{\"event\":\"subscriptionStatus\",\"status\":\"error\",\"errorMessage\":\"Currency pair not supported\"}";
    match m.handle_status_message(failed) {
        Some(Err(SubscriptionError::SubscriptionFailed(t))) => assert_eq!(t, "Currency pair not supported"),
        other => panic!("unexpected {:?}", other),
    }
    assert!(m.handle_status_message(TICKER).is_none());
    let gone = "{\"event\":\"subscriptionStatus\",\"status\":\"unsubscribed\",\"subscription\":{\"name\":\"ticker\"}}";
    assert!(m.handle_unsubscription_confirmation_text(gone).is_ok());
    assert!(!m.is_subscribed(&channel));
}

#[test]
fn auth_response_from_text() {
    let ok = "{\"event\":\"subscriptionStatus\",\"status\":\"subscribed\"}";
    assert!(matches!(validate_auth_response_text(ok), Ok(true)));
    let err = "{\"event\":\"subscriptionStatus\",\"status\":\"error\",\"errorMessage\":\"EGeneral:Invalid token\"}";
    match validate_auth_response_text(err) {
        Err(ConnectionError::AuthenticationFailed(m)) => assert_eq!(m, "EGeneral:Invalid token"),
        other => panic!("unexpected {:?}", other),
    }
    match validate_auth_response_text("<html>") {
        Err(ConnectionError::AuthenticationFailed(m)) => assert!(m.starts_with("Invalid auth response: ")),
        other => panic!("unexpected {:?}", other),
    }
}

#[test]
fn private_message_from_text() {
    assert!(matches!(read_private_message_text("{\"event\":\"heartbeat\"}"), Ok(PrivateMessage::System)));
    match read_private_message_text("{\"event\":\"error\",\"errorMessage\":\"bad\"}") {
        Ok(PrivateMessage::Error(m)) => assert_eq!(m, "bad"),
        other => panic!("unexpected {:?}", other),
    }
    assert!(matches!(read_private_message_text("{"), Err(SdkError::Parse(ParseError::InvalidJson(_)))));
}
