use kraken_ws_sdk::error::{ParseError, SdkError};
use kraken_ws_sdk::rest::{
    api_error, api_url, balance_entry, cancel_after_params, cancel_params, edit_order_params, extended_balance_entry,
    history_params, parse_order_status, parse_order_type, post_body, private_path, HistoryOptions,
};
use kraken_ws_sdk::trading::{EditOrderRequest, OrderStatus, OrderType};
use rust_decimal::Decimal;
use std::str::FromStr;

fn dec(t: &str) -> Decimal {
    Decimal::from_str(t).unwrap()
}

#[test]
fn paths_and_bodies() {
    assert_eq!(private_path("Balance"), "/0/private/Balance");
    assert_eq!(api_url("/0/private/Balance"), "https://api.kraken.com/0/private/Balance");
    let params = vec![("pair".to_string(), "XBTUSD".to_string()), ("type".to_string(), "buy".to_string())];
    assert_eq!(post_body(1616492376594, &params), "nonce=1616492376594&pair=XBTUSD&type=buy");
    assert_eq!(post_body(7, &vec![]), "nonce=7");
}

#[test]
fn errors_join() {
    assert!(api_error(&vec![]).is_none());
    match api_error(&vec!["EGeneral:Invalid arguments".to_string(), "EAPI:Invalid nonce".to_string()]) {
        Some(SdkError::Network(m)) => assert_eq!(m, "EGeneral:Invalid arguments, EAPI:Invalid nonce"),
        other => panic!("unexpected {:?}", other),
    }
}

#[test]
fn names_of_types_and_statuses() {
    assert_eq!(parse_order_type("stop-loss-limit"), OrderType::StopLossLimit);
    assert_eq!(parse_order_type("bogus"), OrderType::Limit);
    assert_eq!(parse_order_status("expired"), OrderStatus::Expired);
    assert_eq!(parse_order_status("weird"), OrderStatus::Open);
}

#[test]
fn request_parameters() {
    let e = EditOrderRequest::new("OABC").with_price(dec("10.5"));
    assert_eq!(
        edit_order_params(&e),
        vec![("txid".to_string(), "OABC".to_string()), ("price".to_string(), "10.5".to_string())]
    );
    assert_eq!(cancel_after_params(60), vec![("timeout".to_string(), "60".to_string())]);
    assert_eq!(cancel_params("T1"), vec![("txid".to_string(), "T1".to_string())]);
    let h = history_params(&HistoryOptions { start: Some(1_500_000), end: Some(-1), offset: Some(50) });
    assert_eq!(
        h,
        vec![
            ("start".to_string(), "1".to_string()),
            ("end".to_string(), "-1".to_string()),
            ("ofs".to_string(), "50".to_string())
        ]
    );
    assert!(history_params(&HistoryOptions::default()).is_empty());
}

#[test]
fn balances_from_replies() {
    let b = balance_entry("XXBT", "1.5").unwrap();
    assert_eq!(b.available, dec("1.5"));
    assert_eq!(b.hold, Decimal::ZERO);
    match balance_entry("XXBT", "abc") {
        Err(SdkError::Parse(ParseError::InvalidDataType(m))) => assert!(m.starts_with("Invalid balance: ")),
        other => panic!("unexpected {:?}", other),
    }
    let x = extended_balance_entry("ZUSD", Some("100"), Some("30")).unwrap();
    assert_eq!(x.available, dec("70"));
    let y = extended_balance_entry("ZUSD", None, Some("oops")).unwrap();
    assert_eq!(y.balance, Decimal::ZERO);
    assert_eq!(y.hold, Decimal::ZERO);
}
