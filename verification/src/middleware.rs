//! Request/response contexts, operation metrics and per-second request limiting
//! for the middleware pipeline.

use crate::clock::{as_micros, as_nanos, duration_micros, elapsed_since, instant_now, utc_now_micros};
use crate::error::SdkError;
use crate::sorting::percentile;
use crate::sorting::percentile_of;
use crate::telemetry::{set_label, Labels};
use crate::text::{decimal, u64_to_decimal};
use std::time::Duration;
use std::time::Instant;
use vstd::prelude::*;

verus! {

broadcast use vstd::string::group_string_axioms;

/// Whether a character is a lower-case hexadecimal digit.
pub open spec fn is_lower_hex(c: char) -> bool {
    ('0' <= c && c <= '9') || ('a' <= c && c <= 'f')
}

/// Whether a text has the hyphenated form of a UUID:
/// `xxxxxxxx-xxxx-xxxx-xxxx-xxxxxxxxxxxx` in lower-case hexadecimal digits.
pub open spec fn is_hyphenated_uuid(s: Seq<char>) -> bool {
    &&& s.len() == 36
    &&& forall|i: int|
        0 <= i < 36 ==> if i == 8 || i == 13 || i == 18 || i == 23 {
            s[i] == '-'
        } else {
            is_lower_hex(#[trigger] s[i])
        }
}

/// A fresh random request identifier (`uuid::Uuid::new_v4`, rendered by
/// `to_string`, which writes the hyphenated lower-case form). Random, so
/// only its form is promised.
#[verifier::external_body]
pub fn new_request_id() -> (id: String)
    ensures
        is_hyphenated_uuid(id@),
{
    uuid::Uuid::new_v4().to_string()
}

/// Context passed through the middleware chain.
#[derive(Debug)]
pub struct RequestContext {
    /// Unique request ID for correlation
    pub request_id: String,
    /// Operation name
    pub operation: String,
    /// Request time, microseconds since the Unix epoch (UTC)
    pub timestamp: i64,
    /// Custom metadata
    pub metadata: Labels,
    /// Start time for latency tracking
    pub start_time: Instant,
}

impl RequestContext {
    /// A context for `operation`, with a fresh identifier and no metadata.
    pub fn new(operation: &str) -> (c: Self)
        ensures
            c.operation@ == operation@,
            c.metadata.wf(),
            c.metadata.pairs_view().len() == 0,
    {
        RequestContext {
            request_id: new_request_id(),
            operation: operation.to_string(),
            timestamp: utc_now_micros(),
            metadata: Labels::new(),
            start_time: instant_now(),
        }
    }

    /// Add a metadata entry.
    pub fn with_metadata(self, key: &str, value: &str) -> (c: Self)
        requires
            self.metadata.wf(),
        ensures
            c.metadata.wf(),
            c.metadata.pairs_view() == set_label(self.metadata.pairs_view(), key@, value@),
            c.request_id == self.request_id,
            c.operation == self.operation,
            c.timestamp == self.timestamp,
            c.start_time == self.start_time,
    {
        let mut this = self;
        this.metadata.insert(key, value);
        this
    }

    /// Time since the request started.
    pub fn elapsed(&self) -> Duration {
        elapsed_since(&self.start_time)
    }
}

/// Response context with timing and metadata.
#[derive(Debug)]
pub struct ResponseContext {
    pub request_id: String,
    pub operation: String,
    pub latency: Duration,
    pub success: bool,
    pub error: Option<String>,
    pub metadata: Labels,
}

impl ResponseContext {
    /// The response of a request that succeeded.
    pub fn success(ctx: &RequestContext) -> (r: Self)
        ensures
            r.request_id@ == ctx.request_id@,
            r.operation@ == ctx.operation@,
            r.success,
            r.error is None,
            r.metadata.pairs_view() == ctx.metadata.pairs_view(),
    {
        ResponseContext {
            request_id: ctx.request_id.clone(),
            operation: ctx.operation.clone(),
            latency: ctx.elapsed(),
            success: true,
            error: None,
            metadata: ctx.metadata.clone(),
        }
    }

    /// The response of a request that failed with `error`.
    pub fn failure(ctx: &RequestContext, error: &str) -> (r: Self)
        ensures
            r.request_id@ == ctx.request_id@,
            r.operation@ == ctx.operation@,
            !r.success,
            r.error matches Some(e) && e@ == error@,
            r.metadata.pairs_view() == ctx.metadata.pairs_view(),
    {
        ResponseContext {
            request_id: ctx.request_id.clone(),
            operation: ctx.operation.clone(),
            latency: ctx.elapsed(),
            success: false,
            error: Some(error.to_string()),
            metadata: ctx.metadata.clone(),
        }
    }
}

/// Latency samples kept by the operation metrics.
pub const MAX_LATENCY_SAMPLES: usize = 1000;

/// Operation metrics collector. Counters wrap around past `u64::MAX`, and the
/// in-flight count wraps below zero, as atomic counters do.
#[derive(Debug)]
pub struct OperationMetrics {
    in_flight: u64,
    total_requests: u64,
    successful_requests: u64,
    failed_requests: u64,
    latencies: Vec<(String, Duration)>,
}

/// The latency window after recording `d`: the oldest sample leaves past the bound.
pub open spec fn window_push(w: Seq<Duration>, d: Duration) -> Seq<Duration> {
    if w.len() + 1 > MAX_LATENCY_SAMPLES {
        w.push(d).drop_first()
    } else {
        w.push(d)
    }
}

/// Microseconds of each sample.
pub open spec fn micros_of(w: Seq<Duration>) -> Seq<u64> {
    w.map_values(|d: Duration| duration_micros(d))
}

/// The sum of a sequence of samples.
pub open spec fn total_of(s: Seq<u64>) -> nat
    decreases s.len(),
{
    if s.len() == 0 {
        0
    } else {
        (total_of(s.drop_last()) + s.last()) as nat
    }
}

/// Metrics snapshot for export.
#[derive(Debug, Clone, Copy)]
pub struct MetricsSnapshot {
    pub in_flight: u64,
    pub total_requests: u64,
    pub successful_requests: u64,
    pub failed_requests: u64,
    pub avg_latency_us: u64,
    pub p99_latency_us: u64,
}

/// `(a + b)` wrapped into `u64`.
pub open spec fn wrap_add(a: u64, b: int) -> u64 {
    ((a + b) % 0x1_0000_0000_0000_0000) as u64
}

impl OperationMetrics {
    /// Requests in flight.
    pub closed spec fn in_flight_count(&self) -> u64 {
        self.in_flight
    }

    /// Requests started.
    pub closed spec fn total_count(&self) -> u64 {
        self.total_requests
    }

    /// Requests that succeeded.
    pub closed spec fn success_count(&self) -> u64 {
        self.successful_requests
    }

    /// Requests that failed.
    pub closed spec fn failure_count(&self) -> u64 {
        self.failed_requests
    }

    /// The latency samples, oldest first.
    pub closed spec fn window(&self) -> Seq<Duration> {
        self.latencies@.map_values(|p: (String, Duration)| p.1)
    }

    /// The window stays within its bound.
    pub closed spec fn wf(&self) -> bool {
        self.latencies@.len() <= MAX_LATENCY_SAMPLES
    }

    /// Whether the window is within its bound (always, for metrics built
    /// and updated by these methods).
    pub fn is_wf(&self) -> (b: bool)
        ensures
            b == self.wf(),
    {
        self.latencies.len() <= MAX_LATENCY_SAMPLES
    }

    /// All counters at zero, no sample.
    pub fn new() -> (m: Self)
        ensures
            m.wf(),
            m.in_flight_count() == 0,
            m.total_count() == 0,
            m.success_count() == 0,
            m.failure_count() == 0,
            m.window().len() == 0,
    {
        OperationMetrics {
            in_flight: 0,
            total_requests: 0,
            successful_requests: 0,
            failed_requests: 0,
            latencies: Vec::new(),
        }
    }

    /// A request starts: one more in flight, one more in total.
    pub fn increment_in_flight(&mut self)
        ensures
            final(self).in_flight_count() == wrap_add(old(self).in_flight_count(), 1),
            final(self).total_count() == wrap_add(old(self).total_count(), 1),
            final(self).success_count() == old(self).success_count(),
            final(self).failure_count() == old(self).failure_count(),
            final(self).window() == old(self).window(),
            final(self).wf() == old(self).wf(),
    {
        self.in_flight = self.in_flight.wrapping_add(1);
        self.total_requests = self.total_requests.wrapping_add(1);
    }

    /// A request ends: one less in flight.
    pub fn decrement_in_flight(&mut self)
        ensures
            final(self).in_flight_count() == wrap_add(old(self).in_flight_count(), -1),
            final(self).total_count() == old(self).total_count(),
            final(self).success_count() == old(self).success_count(),
            final(self).failure_count() == old(self).failure_count(),
            final(self).window() == old(self).window(),
            final(self).wf() == old(self).wf(),
    {
        self.in_flight = self.in_flight.wrapping_sub(1);
    }

    /// A request succeeded.
    pub fn increment_success(&mut self, _operation: &str)
        ensures
            final(self).success_count() == wrap_add(old(self).success_count(), 1),
            final(self).in_flight_count() == old(self).in_flight_count(),
            final(self).total_count() == old(self).total_count(),
            final(self).failure_count() == old(self).failure_count(),
            final(self).window() == old(self).window(),
            final(self).wf() == old(self).wf(),
    {
        self.successful_requests = self.successful_requests.wrapping_add(1);
    }

    /// A request failed.
    pub fn increment_failure(&mut self, _operation: &str)
        ensures
            final(self).failure_count() == wrap_add(old(self).failure_count(), 1),
            final(self).in_flight_count() == old(self).in_flight_count(),
            final(self).total_count() == old(self).total_count(),
            final(self).success_count() == old(self).success_count(),
            final(self).window() == old(self).window(),
            final(self).wf() == old(self).wf(),
    {
        self.failed_requests = self.failed_requests.wrapping_add(1);
    }

    /// Record a latency sample; only the last `MAX_LATENCY_SAMPLES` are kept.
    pub fn record_latency(&mut self, operation: &str, latency: Duration)
        requires
            old(self).wf(),
        ensures
            final(self).wf(),
            final(self).window() == window_push(old(self).window(), latency),
            final(self).in_flight_count() == old(self).in_flight_count(),
            final(self).total_count() == old(self).total_count(),
            final(self).success_count() == old(self).success_count(),
            final(self).failure_count() == old(self).failure_count(),
    {
        self.latencies.push((operation.to_string(), latency));
        assert(self.window() =~= old(self).window().push(latency));
        if self.latencies.len() > MAX_LATENCY_SAMPLES {
            self.latencies.remove(0);
            assert(self.window() =~= old(self).window().push(latency).drop_first());
        }
    }

    /// A snapshot of the counters, with the mean and 99th percentile of the
    /// latency samples in microseconds (0 without samples).
    pub fn get_stats(&self) -> (s: MetricsSnapshot)
        requires
            self.wf(),
        ensures
            s.in_flight == self.in_flight_count(),
            s.total_requests == self.total_count(),
            s.successful_requests == self.success_count(),
            s.failed_requests == self.failure_count(),
            s.avg_latency_us == if self.window().len() == 0 {
                0
            } else {
                total_of(micros_of(self.window())) / self.window().len()
            },
            s.p99_latency_us == percentile_of(micros_of(self.window()), 99),
    {
        let ghost w = micros_of(self.window());
        let mut values: Vec<u64> = Vec::new();
        let mut sum: u128 = 0;
        let mut i: usize = 0;
        while i < self.latencies.len()
            invariant
                i <= self.latencies@.len(),
                self.latencies@.len() <= MAX_LATENCY_SAMPLES,
                w == micros_of(self.window()),
                values@ == w.subrange(0, i as int),
                sum == total_of(values@),
                sum <= i * 0xFFFF_FFFF_FFFF_FFFF,
            decreases self.latencies@.len() - i,
        {
            let m = as_micros(&self.latencies[i].1);
            values.push(m);
            assert(values@.drop_last() =~= w.subrange(0, i as int));
            assert(values@ =~= w.subrange(0, i + 1));
            sum = sum + m as u128;
            i = i + 1;
        }
        assert(values@ =~= w);
        let n = values.len();
        let avg: u64 = if n == 0 {
            0
        } else {
            assert(sum / (n as u128) <= u64::MAX) by (nonlinear_arith)
                requires
                    sum <= n * 0xFFFF_FFFF_FFFF_FFFF,
                    n > 0,
            {
            }
            (sum / (n as u128)) as u64
        };
        MetricsSnapshot {
            in_flight: self.in_flight,
            total_requests: self.total_requests,
            successful_requests: self.successful_requests,
            failed_requests: self.failed_requests,
            avg_latency_us: avg,
            p99_latency_us: percentile(values.as_slice(), 99),
        }
    }
}

impl Default for OperationMetrics {
    fn default() -> (m: Self)
        ensures
            m.wf(),
            m.in_flight_count() == 0,
            m.total_count() == 0,
            m.window().len() == 0,
    {
        OperationMetrics::new()
    }
}

/// One metric block of a snapshot export.
pub open spec fn export_block(
    prefix: Seq<char>,
    suffix: Seq<char>,
    help: Seq<char>,
    kind: Seq<char>,
    value: u64,
) -> Seq<char> {
    "# HELP "@ + prefix + suffix + " "@ + help + "\n# TYPE "@ + prefix + suffix + " "@ + kind
        + "\n"@ + prefix + suffix + " "@ + decimal(value as nat) + "\n"@
}

/// A snapshot in the Prometheus text format: six blocks separated by blank lines.
pub open spec fn snapshot_text(prefix: Seq<char>, s: MetricsSnapshot) -> Seq<char> {
    export_block(prefix, "_requests_in_flight"@, "Current in-flight requests"@, "gauge"@, s.in_flight)
        + "\n"@ + export_block(prefix, "_requests_total"@, "Total requests"@, "counter"@, s.total_requests)
        + "\n"@ + export_block(prefix, "_requests_success_total"@, "Successful requests"@, "counter"@, s.successful_requests)
        + "\n"@ + export_block(prefix, "_requests_failure_total"@, "Failed requests"@, "counter"@, s.failed_requests)
        + "\n"@ + export_block(prefix, "_latency_avg_microseconds"@, "Average latency"@, "gauge"@, s.avg_latency_us)
        + "\n"@ + export_block(prefix, "_latency_p99_microseconds"@, "P99 latency"@, "gauge"@, s.p99_latency_us)
}

/// Append one metric block.
fn push_block(out: &mut String, prefix: &str, suffix: &str, help: &str, kind: &str, value: u64)
    ensures
        final(out)@ == old(out)@ + export_block(prefix@, suffix@, help@, kind@, value),
{
    proof {
        reveal_strlit("# HELP ");
        reveal_strlit(" ");
        reveal_strlit("\n# TYPE ");
        reveal_strlit("\n");
    }
    out.append("# HELP ");
    out.append(prefix);
    out.append(suffix);
    out.append(" ");
    out.append(help);
    out.append("\n# TYPE ");
    out.append(prefix);
    out.append(suffix);
    out.append(" ");
    out.append(kind);
    out.append("\n");
    out.append(prefix);
    out.append(suffix);
    out.append(" ");
    let v = u64_to_decimal(value);
    out.append(v.as_str());
    out.append("\n");
    assert(final(out)@ =~= old(out)@ + export_block(prefix@, suffix@, help@, kind@, value));
}

impl MetricsSnapshot {
    /// Export as Prometheus text.
    pub fn to_prometheus(&self, prefix: &str) -> (s: String)
        ensures
            s@ == snapshot_text(prefix@, *self),
    {
        proof {
            reveal_strlit("\n");
            reveal_strlit("_requests_in_flight");
            reveal_strlit("Current in-flight requests");
            reveal_strlit("gauge");
            reveal_strlit("_requests_total");
            reveal_strlit("Total requests");
            reveal_strlit("counter");
            reveal_strlit("_requests_success_total");
            reveal_strlit("Successful requests");
            reveal_strlit("_requests_failure_total");
            reveal_strlit("Failed requests");
            reveal_strlit("_latency_avg_microseconds");
            reveal_strlit("Average latency");
            reveal_strlit("_latency_p99_microseconds");
            reveal_strlit("P99 latency");
        }
        let mut s = String::new();
        push_block(&mut s, prefix, "_requests_in_flight", "Current in-flight requests", "gauge", self.in_flight);
        s.append("\n");
        push_block(&mut s, prefix, "_requests_total", "Total requests", "counter", self.total_requests);
        s.append("\n");
        push_block(&mut s, prefix, "_requests_success_total", "Successful requests", "counter", self.successful_requests);
        s.append("\n");
        push_block(&mut s, prefix, "_requests_failure_total", "Failed requests", "counter", self.failed_requests);
        s.append("\n");
        push_block(&mut s, prefix, "_latency_avg_microseconds", "Average latency", "gauge", self.avg_latency_us);
        s.append("\n");
        push_block(&mut s, prefix, "_latency_p99_microseconds", "P99 latency", "gauge", self.p99_latency_us);
        assert(s@ =~= snapshot_text(prefix@, *self));
        s
    }
}

/// The level at which the logging middleware reports operations.
#[derive(Debug, Clone, Copy, PartialEq, Eq, Structural)]
pub enum LogLevel {
    Trace,
    Debug,
    Info,
    Warn,
    Error,
}

/// Middleware that logs every operation at a level.
#[derive(Debug, Clone, Copy)]
pub struct LoggingMiddleware {
    pub level: LogLevel,
}

impl LoggingMiddleware {
    /// Logging at a given level.
    pub fn new(level: LogLevel) -> (m: Self)
        ensures
            m.level == level,
    {
        LoggingMiddleware { level }
    }

    /// Logging at debug level.
    pub fn debug() -> (m: Self)
        ensures
            m.level == LogLevel::Debug,
    {
        Self::new(LogLevel::Debug)
    }

    /// Logging at info level.
    pub fn info() -> (m: Self)
        ensures
            m.level == LogLevel::Info,
    {
        Self::new(LogLevel::Info)
    }

    /// The middleware's name.
    pub fn name(&self) -> (n: &'static str)
        ensures
            n@ == "LoggingMiddleware"@,
    {
        "LoggingMiddleware"
    }
}

/// Middleware that counts operations and records their latencies.
#[derive(Debug)]
pub struct MetricsMiddleware {
    metrics: OperationMetrics,
}

impl MetricsMiddleware {
    /// The metrics it records into.
    pub closed spec fn recorded(&self) -> OperationMetrics {
        self.metrics
    }

    /// Middleware recording into `metrics`.
    pub fn new(metrics: OperationMetrics) -> (m: Self)
        ensures
            m.recorded() == metrics,
    {
        MetricsMiddleware { metrics }
    }

    /// The metrics recorded so far.
    pub fn metrics(&self) -> (r: &OperationMetrics)
        ensures
            *r == self.recorded(),
    {
        &self.metrics
    }

    /// An operation starts: one more in flight and in total; never refuses.
    pub fn before(&mut self, _ctx: &mut RequestContext) -> (r: Result<(), SdkError>)
        ensures
            r is Ok,
            *final(_ctx) == *old(_ctx),
            final(self).recorded().in_flight_count() == wrap_add(old(self).recorded().in_flight_count(), 1),
            final(self).recorded().total_count() == wrap_add(old(self).recorded().total_count(), 1),
            final(self).recorded().success_count() == old(self).recorded().success_count(),
            final(self).recorded().failure_count() == old(self).recorded().failure_count(),
            final(self).recorded().window() == old(self).recorded().window(),
            final(self).recorded().wf() == old(self).recorded().wf(),
    {
        self.metrics.increment_in_flight();
        Ok(())
    }

    /// An operation ended: one less in flight, its latency recorded, and one
    /// more success or failure as it went.
    pub fn after(&mut self, ctx: &ResponseContext)
        requires
            old(self).recorded().wf(),
        ensures
            final(self).recorded().wf(),
            final(self).recorded().in_flight_count() == wrap_add(old(self).recorded().in_flight_count(), -1),
            final(self).recorded().total_count() == old(self).recorded().total_count(),
            final(self).recorded().window() == window_push(old(self).recorded().window(), ctx.latency),
            ctx.success ==> final(self).recorded().success_count() == wrap_add(old(self).recorded().success_count(), 1)
                && final(self).recorded().failure_count() == old(self).recorded().failure_count(),
            !ctx.success ==> final(self).recorded().failure_count() == wrap_add(old(self).recorded().failure_count(), 1)
                && final(self).recorded().success_count() == old(self).recorded().success_count(),
    {
        self.metrics.decrement_in_flight();
        self.metrics.record_latency(ctx.operation.as_str(), ctx.latency);
        if ctx.success {
            self.metrics.increment_success(ctx.operation.as_str());
        } else {
            self.metrics.increment_failure(ctx.operation.as_str());
        }
    }

    /// The middleware's name.
    pub fn name(&self) -> (n: &'static str)
        ensures
            n@ == "MetricsMiddleware"@,
    {
        "MetricsMiddleware"
    }
}

/// Per-second request limiting for the middleware chain.
pub struct RateLimitMiddleware {
    requests_per_second: u32,
    last_request: Instant,
    request_count: u32,
}

impl RateLimitMiddleware {
    /// The configured limit.
    pub closed spec fn limit(&self) -> u32 {
        self.requests_per_second
    }

    /// Requests counted in the current one-second window.
    pub closed spec fn count(&self) -> u32 {
        self.request_count
    }

    /// A limiter allowing `requests_per_second` requests in each second.
    pub fn new(requests_per_second: u32) -> (m: Self)
        ensures
            m.limit() == requests_per_second,
            m.count() == 0,
    {
        RateLimitMiddleware { requests_per_second, last_request: instant_now(), request_count: 0 }
    }

    /// Admit or refuse a request `elapsed_nanos` after the current window
    /// began. The count restarts once a second has passed; every request is
    /// counted, and one that finds the count already at the limit is refused:
    /// it gets the metadata `rate_limited = true` and a network error.
    pub fn before_after(&mut self, ctx: &mut RequestContext, elapsed_nanos: u128) -> (r: Result<(), SdkError>)
        requires
            old(ctx).metadata.wf(),
        ensures
            final(self).limit() == old(self).limit(),
            final(ctx).metadata.wf(),
            final(ctx).request_id == old(ctx).request_id,
            final(ctx).operation == old(ctx).operation,
            ({
                let start = if elapsed_nanos >= 1_000_000_000 { 0 } else { old(self).count() as int };
                &&& final(self).count() == wrap32(start + 1)
                &&& (r is Err <==> start >= old(self).limit())
            }),
            match r {
                Ok(_) => final(ctx).metadata.pairs_view() == old(ctx).metadata.pairs_view(),
                Err(e) => e matches SdkError::Network(m) && m@ == "Rate limit exceeded"@
                    && final(ctx).metadata.pairs_view() == set_label(
                    old(ctx).metadata.pairs_view(),
                    "rate_limited"@,
                    "true"@,
                ),
            },
    {
        proof {
            reveal_strlit("rate_limited");
            reveal_strlit("true");
            reveal_strlit("Rate limit exceeded");
        }
        if elapsed_nanos >= 1_000_000_000 {
            self.request_count = 0;
            self.last_request = instant_now();
        }
        let count = self.request_count;
        self.request_count = self.request_count.wrapping_add(1);
        if count >= self.requests_per_second {
            ctx.metadata.insert("rate_limited", "true");
            return Err(SdkError::Network("Rate limit exceeded".to_string()));
        }
        Ok(())
    }

    /// Admit or refuse a request now: the time since the window began is
    /// read from the clock and handed to `before_after`.
    pub fn before(&mut self, ctx: &mut RequestContext) -> (r: Result<(), SdkError>)
        requires
            old(ctx).metadata.wf(),
        ensures
            final(self).limit() == old(self).limit(),
            final(ctx).metadata.wf(),
            final(ctx).request_id == old(ctx).request_id,
            final(ctx).operation == old(ctx).operation,
            exists|elapsed: u128|
                #![trigger window_restarts(elapsed)]
                {
                let start = if window_restarts(elapsed) { 0 } else { old(self).count() as int };
                &&& final(self).count() == wrap32(start + 1)
                &&& (r is Err <==> start >= old(self).limit())
            },
            match r {
                Ok(_) => final(ctx).metadata.pairs_view() == old(ctx).metadata.pairs_view(),
                Err(e) => e matches SdkError::Network(m) && m@ == "Rate limit exceeded"@
                    && final(ctx).metadata.pairs_view() == set_label(
                    old(ctx).metadata.pairs_view(),
                    "rate_limited"@,
                    "true"@,
                ),
            },
    {
        let elapsed = as_nanos(&elapsed_since(&self.last_request));
        let r = self.before_after(ctx, elapsed);
        assert(window_restarts(elapsed) == (elapsed >= 1_000_000_000));
        r
    }
}

/// Whether a new one-second window begins `elapsed_nanos` after the last.
pub open spec fn window_restarts(elapsed_nanos: u128) -> bool {
    elapsed_nanos >= 1_000_000_000
}

/// `v` wrapped into `u32`.
pub open spec fn wrap32(v: int) -> u32 {
    (v % 0x1_0000_0000) as u32
}

/// The latency window after recording `ds` in order into `w`.
pub open spec fn window_after_all(w: Seq<Duration>, ds: Seq<Duration>) -> Seq<Duration>
    decreases ds.len(),
{
    if ds.len() == 0 {
        w
    } else {
        window_push(window_after_all(w, ds.drop_last()), ds.last())
    }
}

/// The number of samples a window keeps after `n` recordings from empty.
pub open spec fn kept_count(n: int) -> int {
    if n < MAX_LATENCY_SAMPLES {
        n
    } else {
        MAX_LATENCY_SAMPLES as int
    }
}

/// Recording latencies one after another into an empty window keeps exactly
/// the last `MAX_LATENCY_SAMPLES` of them (all of them while there are
/// fewer), in the order recorded.
pub proof fn law_window_keeps_last_samples(ds: Seq<Duration>)
    ensures
        window_after_all(Seq::empty(), ds) == ds.subrange(ds.len() - kept_count(ds.len() as int), ds.len() as int),
    decreases ds.len(),
{
    if ds.len() > 0 {
        let init = ds.drop_last();
        law_window_keeps_last_samples(init);
        let n = ds.len() as int;
        let w = init.subrange(init.len() - kept_count(init.len() as int), init.len() as int);
        assert(window_after_all(Seq::empty(), init) == w);
        if w.len() + 1 > MAX_LATENCY_SAMPLES {
            assert(w.push(ds.last()).drop_first() =~= ds.subrange(n - kept_count(n), n));
        } else {
            assert(w.push(ds.last()) =~= ds.subrange(n - kept_count(n), n));
        }
    } else {
        assert(ds.subrange(0, 0) =~= Seq::<Duration>::empty());
    }
}

} // verus!
