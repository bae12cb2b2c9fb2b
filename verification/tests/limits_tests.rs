use kraken_ws_sdk::rate_limit::{decayed, time_until_available, AccountTier, EndpointCost, RateLimiter};
use kraken_ws_sdk::retry::{CircuitBreaker, CircuitState};
use std::time::Duration;

#[test]
fn test_tier_defaults() {
    assert_eq!(AccountTier::Starter.max_counter(), 15);
    assert_eq!(AccountTier::Pro.max_counter(), 20);
}

#[test]
fn test_rate_limiter_creation() {
    let mut limiter = RateLimiter::new(AccountTier::Starter);
    assert_eq!(limiter.remaining(), 15);
}

#[test]
fn test_can_request() {
    let mut limiter = RateLimiter::new(AccountTier::Starter);
    assert!(limiter.can_request(EndpointCost::Standard));
    assert!(limiter.can_request(EndpointCost::Ledger));
}

#[test]
fn test_acquire_decrements_counter() {
    let mut limiter = RateLimiter::new(AccountTier::Pro);

    limiter.try_acquire(EndpointCost::Standard).unwrap();
    assert_eq!(limiter.current_counter(), 1);

    limiter.try_acquire(EndpointCost::Ledger).unwrap();
    assert_eq!(limiter.current_counter(), 3); // 1 + 2
}

#[test]
fn acquire_refuses_past_the_limit() {
    let mut limiter = RateLimiter::new(AccountTier::Starter);
    for _ in 0..7 {
        limiter.try_acquire(EndpointCost::Ledger).unwrap();
    }
    assert_eq!(limiter.current_counter(), 14);
    let wait = limiter.try_acquire(EndpointCost::Ledger).unwrap_err();
    // one point over: 1 / 0.33 s plus a tenth of a second
    assert_eq!(wait, 100_000_000 / 33 + 100_000);
    assert_eq!(limiter.current_counter(), 14);
    assert!(limiter.try_acquire(EndpointCost::Standard).is_ok());
}

#[test]
fn order_slots_are_one_per_second() {
    let mut limiter = RateLimiter::new(AccountTier::Pro);
    assert!(limiter.try_acquire(EndpointCost::Order).is_ok());
    let w = limiter.try_acquire(EndpointCost::Order).unwrap_err();
    assert!(w <= 1_000_000);
    assert_eq!(limiter.current_counter(), 0);
}

#[test]
fn decay_values() {
    assert_eq!(decayed(10, AccountTier::Pro, 50_000), (10, false));
    assert_eq!(decayed(10, AccountTier::Pro, 3_000_000), (7, true));
    assert_eq!(decayed(10, AccountTier::Starter, 10_000_000), (7, true));
    assert_eq!(decayed(2, AccountTier::Intermediate, 10_000_000), (0, true));
    assert_eq!(decayed(10, AccountTier::Starter, 2_000_000), (10, false));
    assert_eq!(time_until_available(20, AccountTier::Pro, 2), 2_100_000);
    assert_eq!(time_until_available(5, AccountTier::Pro, 2), 0);
    assert_eq!(EndpointCost::Order.cost(), 0);
    assert_eq!(AccountTier::Intermediate.decay_rate_centis(), 50);
}

#[test]
fn test_circuit_breaker() {
    let mut cb = CircuitBreaker::new(3, Duration::from_secs(1));

    assert!(cb.allow_request());
    cb.record_failure();
    assert!(cb.allow_request());
    cb.record_failure();
    assert!(cb.allow_request());
    cb.record_failure();

    // Circuit should be open now
    assert!(!cb.allow_request());
    assert_eq!(cb.state(), &CircuitState::Open);
}

#[test]
fn circuit_breaker_half_opens_and_closes() {
    let mut cb = CircuitBreaker::new(1, Duration::from_millis(0));
    cb.record_failure();
    assert_eq!(cb.state(), &CircuitState::Open);
    assert!(cb.allow_request());
    assert_eq!(cb.state(), &CircuitState::HalfOpen);
    cb.record_success();
    assert_eq!(cb.state(), &CircuitState::Closed);
    assert_eq!(cb.failure_count(), 0);
}

#[test]
fn rate_limiter_stats_report_the_tier() {
    let mut limiter = RateLimiter::new(AccountTier::Intermediate);
    let st = limiter.stats();
    assert_eq!(st.tier, AccountTier::Intermediate);
    assert_eq!(st.max_counter, 20);
    assert_eq!(st.current_counter, 0);
    assert_eq!(st.remaining, 20);
    assert_eq!(st.decay_rate_centis, 50);
}
