//! Retry errors and the circuit breaker that stops cascading failures.

use crate::clock::{as_nanos, duration_nanos, elapsed_since, instant_now};
use std::time::Duration;
use std::time::Instant;
use vstd::prelude::*;

verus! {

/// Errors that can be retried.
#[derive(Debug, Clone, Copy, PartialEq, Eq, Hash)]
pub enum RetryableError {
    Timeout,
    ConnectionReset,
    ServiceUnavailable,
    RateLimited,
    InternalError,
    NetworkError,
}

/// Circuit breaker states.
#[derive(Debug, Clone, Copy, PartialEq, Eq, Structural)]
pub enum CircuitState {
    Closed,
    Open,
    HalfOpen,
}

/// Circuit breaker for preventing cascading failures.
///
/// After `failure_threshold` failures without a success the circuit opens and
/// refuses requests until `reset_timeout` has passed; it then lets requests
/// through half-open, and the next success closes it again.
#[derive(Debug, Clone, Copy)]
pub struct CircuitBreaker {
    /// Number of failures before opening circuit
    pub failure_threshold: u32,
    /// Duration to keep circuit open
    pub reset_timeout: Duration,
    failure_count: u32,
    state: CircuitState,
    opened_at: Option<Instant>,
}

impl CircuitBreaker {
    /// Current state.
    pub closed spec fn cur(&self) -> CircuitState {
        self.state
    }

    /// The configured threshold.
    pub closed spec fn threshold(&self) -> u32 {
        self.failure_threshold
    }

    /// The configured open period.
    pub closed spec fn timeout(&self) -> Duration {
        self.reset_timeout
    }

    /// Failures counted since the last success.
    pub closed spec fn failures(&self) -> u32 {
        self.failure_count
    }

    /// The breaker's invariant: an open circuit knows when it opened.
    pub closed spec fn wf(&self) -> bool {
        self.state is Open ==> self.opened_at is Some
    }

    /// A closed breaker with no failure counted.
    pub fn new(failure_threshold: u32, reset_timeout: Duration) -> (cb: Self)
        ensures
            cb.wf(),
            cb.cur() == CircuitState::Closed,
            cb.failures() == 0,
            cb.threshold() == failure_threshold,
            cb.timeout() == reset_timeout,
    {
        CircuitBreaker {
            failure_threshold,
            reset_timeout,
            failure_count: 0,
            state: CircuitState::Closed,
            opened_at: None,
        }
    }

    /// Whether the reset timeout has passed `elapsed_nanos` after opening.
    pub open spec fn reset_passed(&self, elapsed_nanos: u128) -> bool {
        elapsed_nanos >= duration_nanos(self.timeout())
    }

    /// Whether a request may go through, `elapsed_nanos` after the circuit
    /// opened. A closed or half-open circuit allows it; an open one allows it
    /// only once `reset_timeout` has passed, turning half-open.
    pub fn allow_request_after(&mut self, elapsed_nanos: u128) -> (b: bool)
        ensures
            old(self).wf() ==> final(self).wf(),
            final(self).failures() == old(self).failures(),
            final(self).threshold() == old(self).threshold(),
            final(self).timeout() == old(self).timeout(),
            match old(self).cur() {
                CircuitState::Closed | CircuitState::HalfOpen => b && *final(self) == *old(self),
                CircuitState::Open => (b <==> old(self).reset_passed(elapsed_nanos)) && if b {
                    final(self).cur() == CircuitState::HalfOpen
                } else {
                    *final(self) == *old(self)
                },
            },
    {
        match self.state {
            CircuitState::Closed => true,
            CircuitState::Open => {
                if elapsed_nanos >= as_nanos(&self.reset_timeout) {
                    self.state = CircuitState::HalfOpen;
                    true
                } else {
                    false
                }
            },
            CircuitState::HalfOpen => true,
        }
    }

    /// Whether a request may go through now: the time since the circuit
    /// opened is read from the clock and handed to `allow_request_after`.
    pub fn allow_request(&mut self) -> (b: bool)
        requires
            old(self).wf(),
        ensures
            final(self).wf(),
            final(self).failures() == old(self).failures(),
            final(self).threshold() == old(self).threshold(),
            final(self).timeout() == old(self).timeout(),
            exists|elapsed: u128|
                match old(self).cur() {
                    CircuitState::Closed | CircuitState::HalfOpen => b && *final(self) == *old(self),
                    CircuitState::Open => (b <==> #[trigger] old(self).reset_passed(elapsed)) && if b {
                        final(self).cur() == CircuitState::HalfOpen
                    } else {
                        *final(self) == *old(self)
                    },
                },
    {
        let elapsed = match self.opened_at {
            Some(opened_at) => as_nanos(&elapsed_since(&opened_at)),
            None => 0,
        };
        let b = self.allow_request_after(elapsed);
        assert(old(self).reset_passed(elapsed) == (elapsed >= duration_nanos(old(self).timeout())));
        b
    }

    /// Record a successful request: the circuit closes and the count restarts.
    pub fn record_success(&mut self)
        ensures
            final(self).wf(),
            final(self).cur() == CircuitState::Closed,
            final(self).failures() == 0,
            final(self).threshold() == old(self).threshold(),
            final(self).timeout() == old(self).timeout(),
    {
        self.failure_count = 0;
        self.state = CircuitState::Closed;
        self.opened_at = None;
    }

    /// Record a failed request: the count goes up, and reaching the threshold opens
    /// the circuit (again).
    pub fn record_failure(&mut self)
        requires
            old(self).wf(),
            old(self).failures() < u32::MAX,
        ensures
            final(self).wf(),
            final(self).failures() == old(self).failures() + 1,
            final(self).threshold() == old(self).threshold(),
            final(self).timeout() == old(self).timeout(),
            final(self).cur() == if old(self).failures() + 1 >= old(self).threshold() {
                CircuitState::Open
            } else {
                old(self).cur()
            },
    {
        self.failure_count = self.failure_count + 1;
        if self.failure_count >= self.failure_threshold {
            self.state = CircuitState::Open;
            self.opened_at = Some(instant_now());
        }
    }

    /// Current state.
    pub fn state(&self) -> (s: &CircuitState)
        ensures
            *s == self.cur(),
    {
        &self.state
    }

    /// Failures counted since the last success.
    pub fn failure_count(&self) -> (n: u32)
        ensures
            n == self.failures(),
    {
        self.failure_count
    }
}

/// A call on a circuit breaker, as it affects the failure count.
#[derive(Debug, Clone, Copy, PartialEq, Eq, Structural)]
pub enum BreakerCall {
    AllowRequest,
    Success,
    Failure,
}

/// The failure count after one call: a success restarts it, a failure adds
/// one, asking whether a request may go through leaves it.
pub open spec fn failures_after(count: int, call: BreakerCall) -> int {
    match call {
        BreakerCall::AllowRequest => count,
        BreakerCall::Success => 0,
        BreakerCall::Failure => count + 1,
    }
}

/// The failure count after a series of calls on a new breaker, call by call.
pub open spec fn count_after_calls(calls: Seq<BreakerCall>) -> int
    decreases calls.len(),
{
    if calls.len() == 0 {
        0
    } else {
        failures_after(count_after_calls(calls.drop_last()), calls.last())
    }
}

/// Where the calls after the last success begin (0 without a success).
pub open spec fn after_last_success(calls: Seq<BreakerCall>) -> int
    decreases calls.len(),
{
    if calls.len() == 0 {
        0
    } else if calls.last() == BreakerCall::Success {
        calls.len() as int
    } else {
        after_last_success(calls.drop_last())
    }
}

/// The test for failures.
pub open spec fn is_failure() -> spec_fn(BreakerCall) -> bool {
    |c: BreakerCall| c == BreakerCall::Failure
}

/// The failure count of a breaker is the number of failures recorded since
/// the last success (since it was made, without one), whatever requests were
/// asked for and whatever state the circuit went through in between.
pub proof fn law_failures_since_last_success(calls: Seq<BreakerCall>)
    ensures
        0 <= after_last_success(calls) <= calls.len(),
        count_after_calls(calls) == calls.subrange(after_last_success(calls), calls.len() as int).filter(
            is_failure(),
        ).len(),
    decreases calls.len(),
{
    reveal(Seq::filter);
    let n = calls.len() as int;
    if n > 0 {
        let init = calls.drop_last();
        law_failures_since_last_success(init);
        let e = after_last_success(init);
        if calls.last() == BreakerCall::Success {
            assert(calls.subrange(n, n) =~= Seq::<BreakerCall>::empty());
        } else {
            assert(calls.subrange(e, n) =~= init.subrange(e, n - 1).push(calls.last()));
            init.subrange(e, n - 1).lemma_filter_len_push(is_failure(), calls.last());
        }
    } else {
        assert(calls.subrange(0, 0) =~= Seq::<BreakerCall>::empty());
    }
}

/// Breakers one call apart each: the count of each follows from the one
/// before by the call's rule.
pub open spec fn follows_calls(states: Seq<CircuitBreaker>, calls: Seq<BreakerCall>) -> bool {
    &&& states.len() == calls.len() + 1
    &&& forall|i: int|
        0 <= i < calls.len() ==> #[trigger] states[i + 1].failures() == failures_after(
            states[i].failures() as int,
            calls[i],
        )
}

proof fn lemma_follows_prefix(states: Seq<CircuitBreaker>, calls: Seq<BreakerCall>, k: int)
    requires
        follows_calls(states, calls),
        states[0].failures() == 0,
        0 <= k <= calls.len(),
    ensures
        states[k].failures() == count_after_calls(calls.take(k)),
    decreases k,
{
    if k > 0 {
        lemma_follows_prefix(states, calls, k - 1);
        assert(calls.take(k).drop_last() =~= calls.take(k - 1));
        assert(states[(k - 1) + 1].failures() == failures_after(states[k - 1].failures() as int, calls[k - 1]));
    }
}

/// A breaker made new and then taken through `calls` (each breaker of
/// `states` being the one after the call before it, as `record_failure`,
/// `record_success` and `allow_request` state) counts exactly the failures
/// since the last success.
pub proof fn law_breaker_counts_failures(states: Seq<CircuitBreaker>, calls: Seq<BreakerCall>)
    requires
        follows_calls(states, calls),
        states[0].failures() == 0,
    ensures
        states.last().failures() == calls.subrange(after_last_success(calls), calls.len() as int).filter(
            is_failure(),
        ).len(),
{
    lemma_follows_prefix(states, calls, calls.len() as int);
    assert(calls.take(calls.len() as int) =~= calls);
    law_failures_since_last_success(calls);
}

} // verus!
