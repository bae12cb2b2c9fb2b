use kraken_ws_sdk::alerts::{
    cancelled_text, connection_text, custom_text, is_dominated, short_txid, strategy_text, with_emoji, AlertLog,
    AlertRecord, AlertSeverity, ConsoleChannel, WebhookChannel,
};

fn rec(id: &str, severity: AlertSeverity) -> AlertRecord<u32> {
    AlertRecord { id: id.to_string(), severity, timestamp: 0, acknowledged: false, payload: 7 }
}

#[test]
fn severity_filter() {
    assert!(is_dominated(AlertSeverity::Info, AlertSeverity::Warning));
    assert!(is_dominated(AlertSeverity::Warning, AlertSeverity::Critical));
    assert!(!is_dominated(AlertSeverity::Critical, AlertSeverity::Info));
    assert!(!is_dominated(AlertSeverity::Warning, AlertSeverity::Warning));
}

#[test]
fn severity_presentation() {
    assert_eq!(AlertSeverity::Critical.emoji(), "🚨");
    assert_eq!(AlertSeverity::Info.color(), 3447003);
    assert_eq!(AlertSeverity::Warning.title(), "Warning Alert");
    assert_eq!(with_emoji(AlertSeverity::Warning, "x"), "⚠️ x");
}

#[test]
fn texts_without_amounts() {
    assert_eq!(cancelled_text("ABCDEFGHIJ", "user"), "Order cancelled: ABCDEFGH - user");
    assert_eq!(cancelled_text("ABC123", "expired"), "Order cancelled: ABC123 - expired");
    assert_eq!(short_txid("ABC123"), "ABC123");
    assert_eq!(strategy_text("grid", "started"), "[grid] started");
    assert_eq!(connection_text(false, "timeout"), "Disconnected: timeout");
    assert_eq!(custom_text("Test", "Hello"), "Test: Hello");
}

#[test]
fn webhook_channels() {
    let t = WebhookChannel::telegram("BOT", "42");
    assert_eq!(t.url, "https://api.telegram.org/botBOT/sendMessage?chat_id=42");
    let d = WebhookChannel::discord("https://discord/x").with_header("A", "1").with_header("B", "2").with_header("A", "3");
    assert_eq!(d.headers, vec![("A".to_string(), "3".to_string()), ("B".to_string(), "2".to_string())]);
    assert_eq!(d.name(), "webhook");
    assert_eq!(ConsoleChannel.name(), "console");
}

#[test]
fn history_filters_bounds_and_acknowledges() {
    let mut log: AlertLog<u32> = AlertLog::new();
    assert!(log.record(rec("a", AlertSeverity::Info)));
    log.set_min_severity(AlertSeverity::Warning);
    assert!(!log.accepts(AlertSeverity::Info));
    assert!(!log.record(rec("b", AlertSeverity::Info)));
    assert!(log.record(rec("c", AlertSeverity::Critical)));
    let h = log.get_history(10);
    assert_eq!(h.len(), 2);
    assert_eq!(h[0].id, "c");
    log.acknowledge("a");
    let un = log.get_unacknowledged();
    assert_eq!(un.len(), 1);
    assert_eq!(un[0].id, "c");
    for i in 0..1005 {
        log.record(rec(&i.to_string(), AlertSeverity::Critical));
    }
    assert_eq!(log.get_history(5000).len(), 1000);
}
