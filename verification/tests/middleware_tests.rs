use kraken_ws_sdk::error::{ContextualError, ErrorContext, ErrorReporter, SdkError, ConnectionError};
use kraken_ws_sdk::middleware::{
    LogLevel, LoggingMiddleware, MetricsMiddleware, OperationMetrics, RequestContext, ResponseContext,
};

#[test]
fn logging_middleware_levels() {
    assert_eq!(LoggingMiddleware::debug().level, LogLevel::Debug);
    assert_eq!(LoggingMiddleware::info().level, LogLevel::Info);
    assert_eq!(LoggingMiddleware::new(LogLevel::Warn).level, LogLevel::Warn);
    assert_eq!(LoggingMiddleware::info().name(), "LoggingMiddleware");
}

#[test]
fn metrics_middleware_counts_success_and_failure() {
    let mut m = MetricsMiddleware::new(OperationMetrics::new());
    assert_eq!(m.name(), "MetricsMiddleware");
    let mut ctx = RequestContext::new("get_ticker");
    assert!(m.before(&mut ctx).is_ok());
    assert_eq!(m.metrics().get_stats().in_flight, 1);
    assert_eq!(m.metrics().get_stats().total_requests, 1);
    m.after(&ResponseContext::success(&ctx));
    let s = m.metrics().get_stats();
    assert_eq!(s.in_flight, 0);
    assert_eq!(s.successful_requests, 1);
    assert_eq!(s.failed_requests, 0);

    let mut ctx2 = RequestContext::new("place_order");
    assert!(m.before(&mut ctx2).is_ok());
    m.after(&ResponseContext::failure(&ctx2, "rejected"));
    let s = m.metrics().get_stats();
    assert_eq!(s.total_requests, 2);
    assert_eq!(s.successful_requests, 1);
    assert_eq!(s.failed_requests, 1);
    assert_eq!(s.in_flight, 0);
}

#[test]
fn error_context_builders() {
    let c = ErrorContext::new("subscribe")
        .with_detail("pair", "XBT/USD")
        .with_detail("pair", "ETH/USD")
        .with_stack_trace("frame".to_string());
    assert_eq!(c.operation, "subscribe");
    assert!(!c.details.is_empty());
    assert_eq!(c.stack_trace, Some("frame".to_string()));
    let e = ContextualError::new(SdkError::Network("down".to_string()), c);
    assert_eq!(ErrorReporter::contextual_heading(&e), "MEDIUM");
    assert_eq!(e.context.operation, "subscribe");
}

#[test]
fn error_report_headings_follow_severity() {
    let critical = SdkError::Connection(ConnectionError::AuthenticationFailed("bad".to_string()));
    assert_eq!(ErrorReporter::heading(&critical), "CRITICAL ERROR");
    assert_eq!(ErrorReporter::heading(&SdkError::Configuration("x".to_string())), "HIGH SEVERITY");
    assert_eq!(ErrorReporter::heading(&SdkError::Network("x".to_string())), "MEDIUM SEVERITY");
    assert_eq!(ErrorReporter::heading(&SdkError::NotImplemented("x".to_string())), "LOW SEVERITY");
}

#[test]
fn error_context_text() {
    let mut c = ErrorContext::new("subscribe").with_detail("pair", "XBT/USD");
    c.timestamp = 0;
    assert_eq!(c.text(), "[1970-01-01 00:00:00 UTC] Operation: subscribe | Details: {\"pair\": \"XBT/USD\"}");
    let c = c.with_stack_trace("main".to_string());
    let e = ContextualError::new(SdkError::Network("down".to_string()), c);
    assert_eq!(
        e.text(),
        "Network error: down | Context: [1970-01-01 00:00:00 UTC] Operation: subscribe | Details: {\"pair\": \"XBT/USD\"} | Stack: main"
    );
    let mut bare = ErrorContext::new("x");
    bare.timestamp = 0;
    assert_eq!(bare.text(), "[1970-01-01 00:00:00 UTC] Operation: x");
}

#[test]
fn identifiers_have_uuid_form() {
    let ctx = RequestContext::new("op");
    assert_eq!(ctx.request_id.len(), 36);
    assert_eq!(ctx.request_id.chars().filter(|c| *c == '-').count(), 4);
    let span = kraken_ws_sdk::telemetry::Span::new("root");
    assert_eq!(span.span_id.len(), 16);
    assert_eq!(span.span_id.chars().nth(8), Some('-'));
    assert_eq!(span.span_id.chars().nth(13), Some('-'));
    assert!(span.span_id.chars().all(|c| c == '-' || c.is_ascii_hexdigit() && !c.is_ascii_uppercase()));
    let child = span.child("leaf");
    assert_eq!(child.trace_id, span.trace_id);
    assert_eq!(child.parent_span_id, Some(span.span_id.clone()));
}
