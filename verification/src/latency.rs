//! Latency tracking: exchange-to-client latency of each message, kept in
//! bounded sample windows, with threshold alerts, order statistics and a
//! histogram of the samples.
//!
//! Times are microseconds since the Unix epoch (UTC). The floating-point
//! figures (mean, deviation, rates and shares) are computed by the caller
//! from the integer results given here.

use crate::clock::{elapsed_micros, elapsed_since, instant_now, utc_now_micros};
use crate::sorting::{ascending_i64, lemma_i64_leq_total, i64_leq, sorted_i64_copy};
use std::time::{Duration, Instant};
use vstd::prelude::*;

verus! {

/// Configuration of the latency tracker.
#[derive(Debug, Clone, Copy)]
pub struct LatencyConfig {
    /// Maximum samples to keep for percentile calculation
    pub max_samples: usize,
    /// Histogram bucket width in microseconds
    pub histogram_bucket_us: i64,
    /// Number of histogram buckets
    pub histogram_buckets: usize,
    /// Window for the samples-per-second rate
    pub rate_window_secs: u64,
}

impl Default for LatencyConfig {
    fn default() -> (c: Self)
        ensures
            c.max_samples == 10000,
            c.histogram_bucket_us == 1000,
            c.histogram_buckets == 100,
            c.rate_window_secs == 10,
    {
        LatencyConfig { max_samples: 10000, histogram_bucket_us: 1000, histogram_buckets: 100, rate_window_secs: 10 }
    }
}

/// Types of latency alerts.
#[derive(Debug, Clone, Copy, PartialEq, Eq, Structural)]
pub enum LatencyAlertType {
    HighNetworkLatency,
    HighProcessingLatency,
    HighTotalLatency,
    LatencySpike { previous_us: i64 },
}

/// Latency of one message.
#[derive(Debug, Clone)]
pub struct LatencyMeasurement {
    /// When the exchange produced the message
    pub exchange_timestamp: i64,
    /// When the SDK received it
    pub receive_timestamp: i64,
    /// When the SDK finished processing it
    pub process_timestamp: i64,
    /// Exchange to receive
    pub network_latency_us: i64,
    /// Receive to processed
    pub processing_latency_us: i64,
    /// End to end
    pub total_latency_us: i64,
    pub channel: String,
    pub symbol: String,
}

/// A latency above its threshold.
#[derive(Debug, Clone)]
pub struct LatencyAlert {
    pub alert_type: LatencyAlertType,
    pub channel: String,
    pub symbol: String,
    pub latency_us: i64,
    pub threshold_us: i64,
    /// When the alert was raised
    pub timestamp: i64,
}

/// Order statistics of a sample window: the samples at the percentile
/// ranks of the ascending order, the extremes and the sum.
#[derive(Debug, Clone, Copy)]
pub struct OrderStatistics {
    pub p50: i64,
    pub p75: i64,
    pub p90: i64,
    pub p95: i64,
    pub p99: i64,
    pub p999: i64,
    pub min: i64,
    pub max: i64,
    pub sum: i128,
    pub count: usize,
}

/// Sample counts per histogram bucket.
#[derive(Debug, Clone)]
pub struct HistogramCounts {
    pub counts: Vec<u64>,
    pub total_samples: u64,
    pub bucket_width_us: i64,
}

/// The microseconds from `from` to `to`; 0 when they do not fit an `i64`.
pub open spec fn micros_between(from: i64, to: i64) -> i64 {
    let d = to - from;
    if i64::MIN <= d <= i64::MAX {
        d as i64
    } else {
        0
    }
}

/// Whether the end-to-end latency of a measurement fits an `i64`.
pub open spec fn total_fits(exchange: i64, receive: i64, process: i64) -> bool {
    i64::MIN <= micros_between(exchange, receive) + micros_between(receive, process) <= i64::MAX
}

/// The measurement of a message with its three times.
pub open spec fn measured(m: LatencyMeasurement, exchange: i64, receive: i64, process: i64, channel: Seq<char>, symbol: Seq<char>) -> bool {
    &&& m.exchange_timestamp == exchange
    &&& m.receive_timestamp == receive
    &&& m.process_timestamp == process
    &&& m.network_latency_us == micros_between(exchange, receive)
    &&& m.processing_latency_us == micros_between(receive, process)
    &&& m.total_latency_us == micros_between(exchange, receive) + micros_between(receive, process)
    &&& m.channel@ == channel
    &&& m.symbol@ == symbol
}

/// The alerts of a measurement against thresholds, in order: network,
/// processing, total, each when its latency is above its threshold.
pub open spec fn alerts_for(m: LatencyMeasurement, network: i64, processing: i64, total: i64) -> Seq<(LatencyAlertType, i64, i64)> {
    let a = if m.network_latency_us > network {
        seq![(LatencyAlertType::HighNetworkLatency, m.network_latency_us, network)]
    } else {
        Seq::empty()
    };
    let b = if m.processing_latency_us > processing {
        seq![(LatencyAlertType::HighProcessingLatency, m.processing_latency_us, processing)]
    } else {
        Seq::empty()
    };
    let c = if m.total_latency_us > total {
        seq![(LatencyAlertType::HighTotalLatency, m.total_latency_us, total)]
    } else {
        Seq::empty()
    };
    a + b + c
}

/// Whether alerts are those of a measurement: the listed kinds, latencies
/// and thresholds, with the measurement's channel and symbol.
pub open spec fn alerts_match(alerts: Seq<LatencyAlert>, m: LatencyMeasurement, network: i64, processing: i64, total: i64) -> bool {
    let expected = alerts_for(m, network, processing, total);
    &&& alerts.len() == expected.len()
    &&& forall|i: int|
        0 <= i < alerts.len() ==> (#[trigger] alerts[i]).alert_type == expected[i].0 && alerts[i].latency_us
            == expected[i].1 && alerts[i].threshold_us == expected[i].2 && alerts[i].channel@ == m.channel@
            && alerts[i].symbol@ == m.symbol@
}

/// A window after a new sample: the sample added, the oldest dropped beyond
/// the limit.
pub open spec fn window_after(w: Seq<i64>, x: i64, max: nat) -> Seq<i64> {
    let p = w.push(x);
    if p.len() > max {
        p.skip(p.len() - max)
    } else {
        p
    }
}

/// The rank read for a percentile given as `num / den`: `len × num / den`,
/// at most the last.
pub open spec fn rank(len: nat, num: nat, den: nat) -> int {
    let r = (len * num / den) as int;
    if r < len - 1 {
        r
    } else {
        len - 1
    }
}

/// The sum of samples.
pub open spec fn sample_sum(s: Seq<i64>) -> int
    decreases s.len(),
{
    if s.len() == 0 {
        0
    } else {
        sample_sum(s.drop_last()) + s.last()
    }
}

/// The order statistics of a non-empty window.
pub open spec fn order_stats_of(s: Seq<i64>) -> OrderStatistics {
    let a = ascending_i64(s);
    let n = s.len();
    OrderStatistics {
        p50: a[rank(n, 50, 100)],
        p75: a[rank(n, 75, 100)],
        p90: a[rank(n, 90, 100)],
        p95: a[rank(n, 95, 100)],
        p99: a[rank(n, 99, 100)],
        p999: a[rank(n, 999, 1000)],
        min: a[0],
        max: a[n - 1],
        sum: sample_sum(s) as i128,
        count: n as usize,
    }
}

/// The bucket of a sample: its width-quotient (rounded toward zero), the
/// last bucket for a negative quotient or one past the end.
pub open spec fn bucket_of(sample: i64, width: i64, buckets: nat) -> int {
    let x = sample as int;
    let w = width as int;
    let q = if x >= 0 {
        x / w
    } else {
        -((-x) / w)
    };
    if q < 0 || q >= buckets - 1 {
        buckets - 1
    } else {
        q
    }
}

/// The number of samples falling in bucket `b`.
pub open spec fn bucket_count(s: Seq<i64>, width: i64, buckets: nat, b: int) -> nat
    decreases s.len(),
{
    if s.len() == 0 {
        0
    } else {
        bucket_count(s.drop_last(), width, buckets, b) + if bucket_of(s.last(), width, buckets) == b {
            1nat
        } else {
            0nat
        }
    }
}

/// The order statistics of a window; `None` for an empty one.
pub fn order_statistics(samples: &Vec<i64>) -> (r: Option<OrderStatistics>)
    ensures
        samples@.len() == 0 <==> r is None,
        r matches Some(o) ==> o == order_stats_of(samples@),
{
    let n = samples.len();
    if n == 0 {
        return None;
    }
    let sorted = sorted_i64_copy(samples.as_slice());
    proof {
        lemma_i64_leq_total();
        samples@.lemma_sort_by_ensures(i64_leq());
        vstd::seq_lib::to_multiset_len(samples@);
        vstd::seq_lib::to_multiset_len(samples@.sort_by(i64_leq()));
    }
    assert(sorted@.len() == n);
    let mut sum: i128 = 0;
    let mut i: usize = 0;
    while i < n
        invariant
            i <= n,
            n == samples@.len(),
            sum == sample_sum(samples@.take(i as int)),
            i64::MIN * i <= sum <= i64::MAX * i,
        decreases n - i,
    {
        assert(samples@.take(i + 1).drop_last() =~= samples@.take(i as int));
        assert(i64::MIN * (i + 1) <= sum + samples[i as int] <= i64::MAX * (i + 1)) by (nonlinear_arith)
            requires
                i64::MIN * i <= sum <= i64::MAX * i,
                i64::MIN <= samples[i as int] <= i64::MAX,
        ;
        assert(i64::MIN * (i + 1) >= i128::MIN && i64::MAX * (i + 1) <= i128::MAX) by (nonlinear_arith)
            requires
                i < usize::MAX,
        ;
        sum = sum + samples[i] as i128;
        i = i + 1;
    }
    assert(samples@.take(n as int) =~= samples@);
    let ghost len = n as nat;
    let o = OrderStatistics {
        p50: sorted[pick(n, 50, 100)],
        p75: sorted[pick(n, 75, 100)],
        p90: sorted[pick(n, 90, 100)],
        p95: sorted[pick(n, 95, 100)],
        p99: sorted[pick(n, 99, 100)],
        p999: sorted[pick(n, 999, 1000)],
        min: sorted[0],
        max: sorted[n - 1],
        sum,
        count: n,
    };
    Some(o)
}

/// `rank` for a window of `n` samples.
fn pick(n: usize, num: u128, den: u128) -> (r: usize)
    requires
        n > 0,
        num <= den,
        den > 0,
        den <= 1000,
    ensures
        r == rank(n as nat, num as nat, den as nat),
        r < n,
{
    assert((n as int) * (num as int) <= u128::MAX) by (nonlinear_arith)
        requires
            n <= usize::MAX,
            num <= den,
            den <= 1000,
    ;
    let wide: u128 = n as u128 * num / den;
    assert(wide <= n) by (nonlinear_arith)
        requires
            wide == (n as int) * (num as int) / (den as int),
            num <= den,
            den > 0,
    ;
    let r = wide as usize;
    if r < n - 1 {
        r
    } else {
        n - 1
    }
}

/// The histogram counts of a window: each sample in its bucket.
pub fn histogram_counts(samples: &Vec<i64>, width: i64, buckets: usize) -> (h: HistogramCounts)
    requires
        samples@.len() == 0 || (width > 0 && buckets > 0),
    ensures
        h.total_samples == samples@.len(),
        h.bucket_width_us == width,
        h.counts@.len() == buckets,
        forall|b: int| 0 <= b < buckets ==> #[trigger] h.counts@[b] == bucket_count(samples@, width, buckets as nat, b),
{
    let mut counts: Vec<u64> = Vec::new();
    let mut b: usize = 0;
    while b < buckets
        invariant
            b <= buckets,
            counts@.len() == b,
            forall|j: int| 0 <= j < b ==> counts@[j] == 0,
        decreases buckets - b,
    {
        counts.push(0);
        b = b + 1;
    }
    let mut i: usize = 0;
    assert(samples@.take(0) =~= Seq::<i64>::empty());
    while i < samples.len()
        invariant
            i <= samples@.len(),
            samples@.len() == 0 || (width > 0 && buckets > 0),
            counts@.len() == buckets,
            forall|j: int| 0 <= j < buckets ==> #[trigger] counts@[j] == bucket_count(samples@.take(i as int), width, buckets as nat, j),
            forall|j: int| 0 <= j < buckets ==> #[trigger] counts@[j] <= i,
        decreases samples@.len() - i,
    {
        assert(samples@.take(i + 1).drop_last() =~= samples@.take(i as int));
        assert(samples@.take(i + 1).last() == samples@[i as int]);
        let x = samples[i];
        let q: i128 = if x >= 0 {
            x as i128 / width as i128
        } else {
            let m: i128 = -(x as i128);
            -(m / (width as i128))
        };
        let idx: usize = if q < 0 || q >= (buckets - 1) as i128 {
            buckets - 1
        } else {
            q as usize
        };
        assert(idx == bucket_of(x, width, buckets as nat));
        let old_count = counts[idx];
        counts.set(idx, old_count + 1);
        i = i + 1;
    }
    assert(samples@.take(i as int) =~= samples@);
    HistogramCounts { counts, total_samples: samples.len() as u64, bucket_width_us: width }
}

/// A copy of a measurement.
fn copy_measurement(m: &LatencyMeasurement) -> (r: LatencyMeasurement)
    ensures
        r == *m,
{
    LatencyMeasurement {
        exchange_timestamp: m.exchange_timestamp,
        receive_timestamp: m.receive_timestamp,
        process_timestamp: m.process_timestamp,
        network_latency_us: m.network_latency_us,
        processing_latency_us: m.processing_latency_us,
        total_latency_us: m.total_latency_us,
        channel: m.channel.clone(),
        symbol: m.symbol.clone(),
    }
}

/// Adds a sample to a window, dropping the oldest beyond the limit.
fn push_sample(w: &mut Vec<i64>, x: i64, max: usize)
    ensures
        final(w)@ == window_after(old(w)@, x, max as nat),
{
    w.push(x);
    let ghost p = old(w)@.push(x);
    let ghost mut dropped: int = 0;
    while w.len() > max
        invariant
            w@ == p.skip(dropped),
            0 <= dropped,
            dropped <= p.len(),
            p.len() > max ==> dropped <= p.len() - max,
            p.len() <= max ==> dropped == 0,
        decreases w@.len(),
    {
        w.remove(0);
        proof {
            assert(w@ =~= p.skip(dropped + 1));
            dropped = dropped + 1;
        }
    }
    proof {
        if p.len() <= max {
            assert(w@ =~= p);
        }
    }
}

/// Tracks message latencies.
#[derive(Debug)]
pub struct LatencyTracker {
    config: LatencyConfig,
    network_samples: Vec<i64>,
    processing_samples: Vec<i64>,
    total_samples: Vec<i64>,
    /// Microseconds since the tracker started, of each recorded message
    recent: Vec<u64>,
    last_measurement: Option<LatencyMeasurement>,
    network_threshold_us: i64,
    processing_threshold_us: i64,
    total_threshold_us: i64,
    start_time: Instant,
}

impl LatencyTracker {
    /// The configuration.
    pub closed spec fn config_view(&self) -> LatencyConfig {
        self.config
    }

    /// The network latency window.
    pub closed spec fn network(&self) -> Seq<i64> {
        self.network_samples@
    }

    /// The processing latency window.
    pub closed spec fn processing(&self) -> Seq<i64> {
        self.processing_samples@
    }

    /// The end-to-end latency window.
    pub closed spec fn total(&self) -> Seq<i64> {
        self.total_samples@
    }

    /// The alert thresholds: network, processing, total.
    pub closed spec fn thresholds(&self) -> (i64, i64, i64) {
        (self.network_threshold_us, self.processing_threshold_us, self.total_threshold_us)
    }

    /// When each recorded message was recorded, microseconds since the
    /// tracker started, oldest first.
    pub closed spec fn recent_times(&self) -> Seq<u64> {
        self.recent@
    }

    /// The last measurement recorded.
    pub closed spec fn last_view(&self) -> Option<LatencyMeasurement> {
        self.last_measurement
    }

    /// A tracker with the default configuration.
    pub fn new() -> (t: Self)
        ensures
            t.config_view() == (LatencyConfig {
                max_samples: 10000,
                histogram_bucket_us: 1000,
                histogram_buckets: 100,
                rate_window_secs: 10,
            }),
            t.network().len() == 0,
            t.processing().len() == 0,
            t.total().len() == 0,
            t.thresholds() == (100_000i64, 10_000i64, 150_000i64),
            t.last_view() is None,
    {
        Self::with_config(LatencyConfig::default())
    }

    /// A tracker with a configuration; thresholds 100 ms network, 10 ms
    /// processing, 150 ms total.
    pub fn with_config(config: LatencyConfig) -> (t: Self)
        ensures
            t.config_view() == config,
            t.network().len() == 0,
            t.processing().len() == 0,
            t.total().len() == 0,
            t.thresholds() == (100_000i64, 10_000i64, 150_000i64),
            t.last_view() is None,
    {
        LatencyTracker {
            config,
            network_samples: Vec::new(),
            processing_samples: Vec::new(),
            total_samples: Vec::new(),
            recent: Vec::new(),
            last_measurement: None,
            network_threshold_us: 100_000,
            processing_threshold_us: 10_000,
            total_threshold_us: 150_000,
            start_time: instant_now(),
        }
    }

    /// Sets the alert thresholds, in microseconds.
    pub fn set_thresholds(&mut self, network_us: i64, processing_us: i64, total_us: i64)
        ensures
            final(self).thresholds() == (network_us, processing_us, total_us),
            final(self).config_view() == old(self).config_view(),
            final(self).network() == old(self).network(),
            final(self).processing() == old(self).processing(),
            final(self).total() == old(self).total(),
            final(self).last_view() == old(self).last_view(),
    {
        self.network_threshold_us = network_us;
        self.processing_threshold_us = processing_us;
        self.total_threshold_us = total_us;
    }

    /// Records a message with its three times: its latencies join the
    /// windows, it becomes the last measurement, and the alerts above the
    /// thresholds are returned (each stamped with the time of the call).
    pub fn record_explicit(
        &mut self,
        exchange_timestamp: i64,
        receive_timestamp: i64,
        process_timestamp: i64,
        channel: &str,
        symbol: &str,
    ) -> (r: (LatencyMeasurement, Vec<LatencyAlert>))
        requires
            total_fits(exchange_timestamp, receive_timestamp, process_timestamp),
        ensures
            measured(r.0, exchange_timestamp, receive_timestamp, process_timestamp, channel@, symbol@),
            alerts_match(r.1@, r.0, old(self).thresholds().0, old(self).thresholds().1, old(self).thresholds().2),
            final(self).network() == window_after(old(self).network(), r.0.network_latency_us, old(self).config_view().max_samples as nat),
            final(self).processing() == window_after(old(self).processing(), r.0.processing_latency_us, old(self).config_view().max_samples as nat),
            final(self).total() == window_after(old(self).total(), r.0.total_latency_us, old(self).config_view().max_samples as nat),
            final(self).last_view() == Some(r.0),
            final(self).thresholds() == old(self).thresholds(),
            final(self).config_view() == old(self).config_view(),
    {
        let network = between(exchange_timestamp, receive_timestamp);
        let processing = between(receive_timestamp, process_timestamp);
        let total = network + processing;
        let m = LatencyMeasurement {
            exchange_timestamp,
            receive_timestamp,
            process_timestamp,
            network_latency_us: network,
            processing_latency_us: processing,
            total_latency_us: total,
            channel: channel.to_string(),
            symbol: symbol.to_string(),
        };
        let max = self.config.max_samples;
        push_sample(&mut self.network_samples, network, max);
        push_sample(&mut self.processing_samples, processing, max);
        push_sample(&mut self.total_samples, total, max);
        self.last_measurement = Some(copy_measurement(&m));
        let now = elapsed_micros(&self.start_time);
        self.recent.push(now);
        let alerts = self.check_alerts(&m);
        (m, alerts)
    }

    /// Records a message that the exchange produced at the given time; the
    /// receive and processed times are read from the clock.
    pub fn record(&mut self, exchange_timestamp: i64, channel: &str, symbol: &str) -> (r: Option<(LatencyMeasurement, Vec<LatencyAlert>)>)
        ensures
            exists|receive: i64, process: i64|
                (r is Some <==> #[trigger] total_fits(exchange_timestamp, receive, process)) && (r matches Some(v)
                    ==> v.0.receive_timestamp == receive && v.0.process_timestamp == process),
            match r {
                Some(v) => measured(v.0, exchange_timestamp, v.0.receive_timestamp, v.0.process_timestamp, channel@, symbol@)
                    && alerts_match(v.1@, v.0, old(self).thresholds().0, old(self).thresholds().1, old(self).thresholds().2)
                    && final(self).last_view() == Some(v.0),
                None => final(self).network() == old(self).network() && final(self).total() == old(self).total()
                    && final(self).last_view() == old(self).last_view(),
            },
    {
        let receive = utc_now_micros();
        let process = utc_now_micros();
        if fits_total(exchange_timestamp, receive, process) {
            let v = self.record_explicit(exchange_timestamp, receive, process, channel, symbol);
            assert(total_fits(exchange_timestamp, receive, process));
            Some(v)
        } else {
            assert(!total_fits(exchange_timestamp, receive, process));
            None
        }
    }

    /// The alerts of a measurement.
    fn check_alerts(&self, m: &LatencyMeasurement) -> (r: Vec<LatencyAlert>)
        ensures
            alerts_match(r@, *m, self.thresholds().0, self.thresholds().1, self.thresholds().2),
    {
        let mut out: Vec<LatencyAlert> = Vec::new();
        if m.network_latency_us > self.network_threshold_us {
            out.push(LatencyAlert {
                alert_type: LatencyAlertType::HighNetworkLatency,
                channel: m.channel.clone(),
                symbol: m.symbol.clone(),
                latency_us: m.network_latency_us,
                threshold_us: self.network_threshold_us,
                timestamp: utc_now_micros(),
            });
        }
        let ghost n1 = out@.len();
        if m.processing_latency_us > self.processing_threshold_us {
            out.push(LatencyAlert {
                alert_type: LatencyAlertType::HighProcessingLatency,
                channel: m.channel.clone(),
                symbol: m.symbol.clone(),
                latency_us: m.processing_latency_us,
                threshold_us: self.processing_threshold_us,
                timestamp: utc_now_micros(),
            });
        }
        if m.total_latency_us > self.total_threshold_us {
            out.push(LatencyAlert {
                alert_type: LatencyAlertType::HighTotalLatency,
                channel: m.channel.clone(),
                symbol: m.symbol.clone(),
                latency_us: m.total_latency_us,
                threshold_us: self.total_threshold_us,
                timestamp: utc_now_micros(),
            });
        }
        out
    }

    /// Order statistics of the network, processing and end-to-end windows.
    pub fn order_statistics(&self) -> (r: (Option<OrderStatistics>, Option<OrderStatistics>, Option<OrderStatistics>))
        ensures
            r.0 == (if self.network().len() == 0 { None } else { Some(order_stats_of(self.network())) }),
            r.1 == (if self.processing().len() == 0 { None } else { Some(order_stats_of(self.processing())) }),
            r.2 == (if self.total().len() == 0 { None } else { Some(order_stats_of(self.total())) }),
    {
        (
            order_statistics(&self.network_samples),
            order_statistics(&self.processing_samples),
            order_statistics(&self.total_samples),
        )
    }

    /// The histogram of the end-to-end window.
    pub fn build_histogram(&self) -> (h: HistogramCounts)
        requires
            self.total().len() == 0 || (self.config_view().histogram_bucket_us > 0
                && self.config_view().histogram_buckets > 0),
        ensures
            h.total_samples == self.total().len(),
            h.bucket_width_us == self.config_view().histogram_bucket_us,
            h.counts@.len() == self.config_view().histogram_buckets,
            forall|b: int|
                0 <= b < h.counts@.len() ==> #[trigger] h.counts@[b] == bucket_count(
                    self.total(),
                    self.config_view().histogram_bucket_us,
                    self.config_view().histogram_buckets as nat,
                    b,
                ),
    {
        histogram_counts(&self.total_samples, self.config.histogram_bucket_us, self.config.histogram_buckets)
    }

    /// The number of messages recorded within the rate window, forgetting
    /// older ones.
    pub fn recent_count(&mut self) -> (n: usize)
        ensures
            exists|now: u64|
                final(self).recent_times() == #[trigger] pruned(
                    old(self).recent_times(),
                    now,
                    old(self).config_view().rate_window_secs * 1_000_000,
                ),
            n == final(self).recent_times().len(),
            final(self).network() == old(self).network(),
            final(self).processing() == old(self).processing(),
            final(self).total() == old(self).total(),
            final(self).last_view() == old(self).last_view(),
            final(self).thresholds() == old(self).thresholds(),
            final(self).config_view() == old(self).config_view(),
    {
        let now = elapsed_micros(&self.start_time);
        let window: u128 = self.config.rate_window_secs as u128 * 1_000_000;
        prune_before(&mut self.recent, now, window);
        assert(self.recent_times() == pruned(old(self).recent_times(), now, old(self).config_view().rate_window_secs * 1_000_000));
        self.recent.len()
    }

    /// The window of network latencies.
    pub fn network_samples(&self) -> (v: Vec<i64>)
        ensures
            v@ == self.network(),
    {
        self.network_samples.clone()
    }

    /// The window of processing latencies.
    pub fn processing_samples(&self) -> (v: Vec<i64>)
        ensures
            v@ == self.processing(),
    {
        self.processing_samples.clone()
    }

    /// The window of end-to-end latencies.
    pub fn total_samples(&self) -> (v: Vec<i64>)
        ensures
            v@ == self.total(),
    {
        self.total_samples.clone()
    }

    /// The configuration.
    pub fn config(&self) -> (c: LatencyConfig)
        ensures
            c == self.config_view(),
    {
        self.config
    }

    /// The last measurement.
    pub fn last(&self) -> (m: Option<LatencyMeasurement>)
        ensures
            m == self.last_view(),
    {
        match &self.last_measurement {
            Some(m) => Some(copy_measurement(m)),
            None => None,
        }
    }

    /// Clears the windows and the last measurement.
    pub fn reset(&mut self)
        ensures
            final(self).network().len() == 0,
            final(self).processing().len() == 0,
            final(self).total().len() == 0,
            final(self).last_view() is None,
            final(self).thresholds() == old(self).thresholds(),
            final(self).config_view() == old(self).config_view(),
    {
        self.network_samples.clear();
        self.processing_samples.clear();
        self.total_samples.clear();
        self.recent.clear();
        self.last_measurement = None;
    }

    /// The time since the tracker was created.
    pub fn uptime(&self) -> Duration {
        elapsed_since(&self.start_time)
    }
}

impl Default for LatencyTracker {
    fn default() -> (t: Self)
        ensures
            t.network().len() == 0,
            t.thresholds() == (100_000i64, 10_000i64, 150_000i64),
            t.last_view() is None,
    {
        LatencyTracker::new()
    }
}

/// The times left after dropping the oldest while they lie more than
/// `window` before `now`.
pub open spec fn pruned(times: Seq<u64>, now: u64, window: int) -> Seq<u64>
    decreases times.len(),
{
    if times.len() > 0 && now >= times[0] && now - times[0] > window {
        pruned(times.drop_first(), now, window)
    } else {
        times
    }
}

/// Drops the oldest times while they lie more than `window` before `now`.
fn prune_before(times: &mut Vec<u64>, now: u64, window: u128)
    ensures
        final(times)@ == pruned(old(times)@, now, window as int),
{
    while times.len() > 0 && now >= times[0] && (now - times[0]) as u128 > window
        invariant
            pruned(times@, now, window as int) == pruned(old(times)@, now, window as int),
        decreases times@.len(),
    {
        let ghost before = times@;
        times.remove(0);
        assert(times@ =~= before.drop_first());
    }
}

/// `micros_between`, computed.
fn between(from: i64, to: i64) -> (d: i64)
    ensures
        d == micros_between(from, to),
{
    let wide: i128 = to as i128 - from as i128;
    if wide >= i64::MIN as i128 && wide <= i64::MAX as i128 {
        wide as i64
    } else {
        0
    }
}

/// `total_fits`, computed.
fn fits_total(exchange: i64, receive: i64, process: i64) -> (b: bool)
    ensures
        b == total_fits(exchange, receive, process),
{
    let s: i128 = between(exchange, receive) as i128 + between(receive, process) as i128;
    s >= i64::MIN as i128 && s <= i64::MAX as i128
}

/// The percentiles of a window are ordered: the minimum, then p50, p75,
/// p90, p95, p99 and p99.9, then the maximum.
pub proof fn law_percentiles_ordered(s: Seq<i64>)
    requires
        s.len() > 0,
    ensures
        order_stats_of(s).min <= order_stats_of(s).p50,
        order_stats_of(s).p50 <= order_stats_of(s).p75,
        order_stats_of(s).p75 <= order_stats_of(s).p90,
        order_stats_of(s).p90 <= order_stats_of(s).p95,
        order_stats_of(s).p95 <= order_stats_of(s).p99,
        order_stats_of(s).p99 <= order_stats_of(s).p999,
        order_stats_of(s).p999 <= order_stats_of(s).max,
{
    lemma_i64_leq_total();
    s.lemma_sort_by_ensures(i64_leq());
    vstd::seq_lib::to_multiset_len(s);
    vstd::seq_lib::to_multiset_len(s.sort_by(i64_leq()));
    let a = ascending_i64(s);
    let n = s.len();
    assert(a.len() == n);
    lemma_rank_monotone(n, 50, 100, 75, 100);
    lemma_rank_monotone(n, 75, 100, 90, 100);
    lemma_rank_monotone(n, 90, 100, 95, 100);
    lemma_rank_monotone(n, 95, 100, 99, 100);
    lemma_rank_monotone(n, 99, 100, 999, 1000);
    assert(i64_leq()(a[0], a[rank(n, 50, 100)]));
    assert(i64_leq()(a[rank(n, 50, 100)], a[rank(n, 75, 100)]));
    assert(i64_leq()(a[rank(n, 75, 100)], a[rank(n, 90, 100)]));
    assert(i64_leq()(a[rank(n, 90, 100)], a[rank(n, 95, 100)]));
    assert(i64_leq()(a[rank(n, 95, 100)], a[rank(n, 99, 100)]));
    assert(i64_leq()(a[rank(n, 99, 100)], a[rank(n, 999, 1000)]));
    assert(i64_leq()(a[rank(n, 999, 1000)], a[n - 1]));
}

proof fn lemma_rank_monotone(n: nat, p: nat, d: nat, q: nat, e: nat)
    requires
        n > 0,
        d > 0,
        e > 0,
        p <= d,
        q <= e,
        p * e <= q * d,
    ensures
        0 <= rank(n, p, d) <= rank(n, q, e) < n,
{
    assert((n * p / d) as int <= (n * q / e) as int) by (nonlinear_arith)
        requires
            d > 0,
            e > 0,
            p * e <= q * d,
    {
        let x = n * p / d;
        assert(x * d <= n * p);
        assert(x * d * e <= n * p * e);
        assert(n * p * e <= n * q * d);
        assert(x * e <= n * q);
    }
    assert(n * p / d <= n) by (nonlinear_arith)
        requires
            d > 0,
            p <= d,
    ;
}

/// A window keeps at most its limit of samples, and the newest sample is
/// its last.
pub proof fn law_window_keeps_newest(w: Seq<i64>, x: i64, max: nat)
    requires
        max >= 1,
        w.len() <= max,
    ensures
        window_after(w, x, max).len() <= max,
        window_after(w, x, max).last() == x,
{
}

/// The window after recording `xs` in order into `w`.
pub open spec fn window_after_all(w: Seq<i64>, xs: Seq<i64>, max: nat) -> Seq<i64>
    decreases xs.len(),
{
    if xs.len() == 0 {
        w
    } else {
        window_after(window_after_all(w, xs.drop_last(), max), xs.last(), max)
    }
}

/// Recording latencies one after another into an empty window keeps exactly
/// the last `max` of them (all of them while there are fewer), in the order
/// recorded.
pub proof fn law_window_keeps_last(xs: Seq<i64>, max: nat)
    requires
        max >= 1,
    ensures
        window_after_all(Seq::empty(), xs, max) == xs.subrange(
            xs.len() - (if xs.len() < max { xs.len() as int } else { max as int }),
            xs.len() as int,
        ),
    decreases xs.len(),
{
    if xs.len() > 0 {
        let init = xs.drop_last();
        law_window_keeps_last(init, max);
        let n = xs.len() as int;
        let m = n - 1;
        let k0: int = if m < max { m } else { max as int };
        let k1: int = if n < max { n } else { max as int };
        let w = init.subrange(m - k0, m);
        let p = w.push(xs.last());
        if p.len() > max {
            assert(p.skip(p.len() - max) =~= xs.subrange(n - k1, n));
        } else {
            assert(p =~= xs.subrange(n - k1, n));
        }
    } else {
        assert(xs.subrange(0, 0) =~= Seq::<i64>::empty());
    }
}

} // verus!
