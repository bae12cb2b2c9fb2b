use base64::engine::general_purpose::STANDARD as BASE64;
use base64::Engine;
use kraken_ws_sdk::auth::Credentials;
use kraken_ws_sdk::error::SdkError;
use std::time::{Duration, Instant};

#[test]
fn test_credentials_creation() {
    let secret = BASE64.encode(b"test_secret_key_here");
    let creds = Credentials::new("test_key", &secret);
    assert!(creds.is_ok());
}

#[test]
fn test_invalid_secret_encoding() {
    let creds = Credentials::new("test_key", "not-valid-base64!!!");
    assert!(creds.is_err());
}

#[test]
fn test_nonce_generation() {
    let nonce1 = Credentials::generate_nonce().unwrap();
    let start = Instant::now();
    while start.elapsed() < Duration::from_micros(10) {}
    let nonce2 = Credentials::generate_nonce().unwrap();
    assert!(nonce2 > nonce1);
}

#[test]
fn test_signature_deterministic() {
    let secret = BASE64.encode(b"test_secret");
    let creds = Credentials::new("key", &secret).unwrap();

    let sig1 = creds.sign("/0/private/Balance", 1234567890, "nonce=1234567890").unwrap();
    let sig2 = creds.sign("/0/private/Balance", 1234567890, "nonce=1234567890").unwrap();

    assert_eq!(sig1, sig2);
}

#[test]
fn test_debug_redacts_secret() {
    let secret = BASE64.encode(b"super_secret");
    let creds = Credentials::new("my_api_key_12345", &secret).unwrap();
    let debug_str = creds.redacted();

    assert!(debug_str.contains("my_api_k..."));
    assert!(debug_str.contains("[REDACTED]"));
    assert!(!debug_str.contains("super_secret"));
}

#[test]
fn signature_matches_the_documented_example() {
    let creds = Credentials::new(
        "key",
        "kQH5HW/8p1uGOVjbgWA7FunAmGO8lsSUXNsu3eow76sz84Q18fWxnyRzBHCd3pd5nE9qa99HAZtuZuj6F1huXg==",
    )
    .unwrap();
    let sig = creds
        .sign(
            "/0/private/AddOrder",
            1616492376594,
            "nonce=1616492376594&ordertype=limit&pair=XBTUSD&price=37500&type=buy&volume=1.25",
        )
        .unwrap();
    assert_eq!(sig, "4/dpxb3iT4tp/ZCVEwSnEsLxx0bqyhLpdfOpc6fn7OR8+UClSV5n9E6aSS8MPtnRfp32bAb0nmbRn6H8ndwLUQ==");
}

#[test]
fn signature_depends_on_nonce_and_path() {
    let creds = Credentials::new("key", &BASE64.encode(b"test_secret")).unwrap();
    let a = creds.sign("/0/private/Balance", 1, "nonce=1").unwrap();
    let b = creds.sign("/0/private/Balance", 2, "nonce=1").unwrap();
    let c = creds.sign("/0/private/Ledgers", 1, "nonce=1").unwrap();
    assert_ne!(a, b);
    assert_ne!(a, c);
    assert_eq!(a.len(), 88);
}

#[test]
fn invalid_secret_reports_authentication_error() {
    match Credentials::new("k", "%%%") {
        Err(SdkError::Authentication(m)) => assert!(m.starts_with("Invalid API secret encoding: ")),
        _ => panic!("expected an authentication error"),
    }
}

#[test]
fn api_key_and_short_key_display() {
    let creds = Credentials::new("abc", &BASE64.encode(b"s")).unwrap();
    assert_eq!(creds.api_key(), "abc");
    assert_eq!(creds.redacted(), "Credentials { api_key: \"abc...\", api_secret: \"[REDACTED]\" }");
}
