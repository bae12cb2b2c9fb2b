//! Telemetry configuration and Prometheus-style counters and gauges.

use crate::clock::{duration_between, duration_from_secs, duration_nanos, instant_now, utc_now_micros};
use crate::middleware::{is_lower_hex, new_request_id};
use std::time::Instant;
use crate::text::{decimal, i64_to_decimal, signed_decimal, u64_to_decimal};
use std::time::Duration;
use vstd::prelude::*;

verus! {

broadcast use vstd::string::group_string_axioms;

/// A set of metric labels: each key once, with its value.
#[derive(Debug)]
pub struct Labels {
    pairs: Vec<(String, String)>,
}

/// The key/value view of label pairs.
pub open spec fn pair_views(v: Seq<(String, String)>) -> Seq<(Seq<char>, Seq<char>)> {
    v.map_values(|p: (String, String)| (p.0@, p.1@))
}

/// Whether no key occurs twice.
pub open spec fn keys_unique(ps: Seq<(Seq<char>, Seq<char>)>) -> bool {
    forall|i: int, j: int| 0 <= i < j < ps.len() ==> ps[i].0 != ps[j].0
}

/// The pairs after setting `key` to `value`: an existing key keeps its place and
/// takes the new value; a new key goes last.
pub open spec fn set_label(
    ps: Seq<(Seq<char>, Seq<char>)>,
    key: Seq<char>,
    value: Seq<char>,
) -> Seq<(Seq<char>, Seq<char>)> {
    if exists|i: int| 0 <= i < ps.len() && ps[i].0 == key {
        ps.update(choose|i: int| 0 <= i < ps.len() && ps[i].0 == key, (key, value))
    } else {
        ps.push((key, value))
    }
}

/// One label rendered as `key="value"`.
pub open spec fn label_text(p: (Seq<char>, Seq<char>)) -> Seq<char> {
    p.0 + "=\""@ + p.1 + "\""@
}

/// Labels rendered and joined with commas.
pub open spec fn labels_joined(ps: Seq<(Seq<char>, Seq<char>)>) -> Seq<char>
    decreases ps.len(),
{
    if ps.len() == 0 {
        Seq::empty()
    } else if ps.len() == 1 {
        label_text(ps[0])
    } else {
        labels_joined(ps.drop_last()) + ","@ + label_text(ps.last())
    }
}

/// The label block of a sample line: nothing without labels, else the labels in braces.
pub open spec fn labels_block(ps: Seq<(Seq<char>, Seq<char>)>) -> Seq<char> {
    if ps.len() == 0 {
        Seq::empty()
    } else {
        "{"@ + labels_joined(ps) + "}"@
    }
}

/// A metric in the Prometheus text format: help line, type line, sample line.
pub open spec fn metric_text(
    name: Seq<char>,
    help: Seq<char>,
    kind: Seq<char>,
    labels: Seq<(Seq<char>, Seq<char>)>,
    value: Seq<char>,
) -> Seq<char> {
    "# HELP "@ + name + " "@ + help + "\n# TYPE "@ + name + " "@ + kind + "\n"@ + name
        + labels_block(labels) + " "@ + value
}

impl Labels {
    /// The label pairs, in the order they were first set.
    pub closed spec fn pairs_view(&self) -> Seq<(Seq<char>, Seq<char>)> {
        pair_views(self.pairs@)
    }

    /// No key twice.
    pub closed spec fn wf(&self) -> bool {
        keys_unique(self.pairs_view())
    }

    /// No label.
    pub fn new() -> (l: Self)
        ensures
            l.wf(),
            l.pairs_view().len() == 0,
    {
        let l = Labels { pairs: Vec::new() };
        assert(l.pairs_view() =~= Seq::<(Seq<char>, Seq<char>)>::empty());
        l
    }

    /// Whether no key occurs twice (always, for labels built by these methods).
    pub fn is_wf(&self) -> (b: bool)
        ensures
            b == self.wf(),
    {
        let ghost ps = self.pairs_view();
        let n = self.pairs.len();
        let mut i: usize = 0;
        while i < n
            invariant
                n == self.pairs@.len(),
                ps == pair_views(self.pairs@),
                i <= n,
                forall|a: int, b: int| 0 <= a < i && a < b < n ==> ps[a].0 != ps[b].0,
            decreases n - i,
        {
            let mut j: usize = i + 1;
            while j < n
                invariant
                    n == self.pairs@.len(),
                    ps == pair_views(self.pairs@),
                    i < n,
                    i + 1 <= j <= n,
                    forall|a: int, b: int| 0 <= a < i && a < b < n ==> ps[a].0 != ps[b].0,
                    forall|b: int| i < b < j ==> ps[i as int].0 != ps[b].0,
                decreases n - j,
            {
                let same = self.pairs[i].0.as_str().unicode_len() == self.pairs[j].0.as_str().unicode_len() && str_eq(
                    self.pairs[i].0.as_str(),
                    self.pairs[j].0.as_str(),
                );
                if same {
                    assert(ps[i as int].0 == ps[j as int].0);
                    return false;
                }
                j = j + 1;
            }
            i = i + 1;
        }
        true
    }

    /// The label pairs, in the order they were first set.
    pub fn pairs(&self) -> (r: &Vec<(String, String)>)
        ensures
            pair_views(r@) == self.pairs_view(),
    {
        &self.pairs
    }

    /// Whether there is no label.
    pub fn is_empty(&self) -> (b: bool)
        ensures
            b == (self.pairs_view().len() == 0),
    {
        self.pairs.len() == 0
    }

    /// Set `key` to `value`.
    pub fn insert(&mut self, key: &str, value: &str)
        requires
            old(self).wf(),
        ensures
            final(self).wf(),
            final(self).pairs_view() == set_label(old(self).pairs_view(), key@, value@),
    {
        let ghost ps = old(self).pairs_view();
        let mut i: usize = 0;
        while i < self.pairs.len()
            invariant
                i <= self.pairs@.len(),
                self.pairs@ == old(self).pairs@,
                ps == pair_views(self.pairs@),
                keys_unique(ps),
                forall|j: int| 0 <= j < i ==> ps[j].0 != key@,
            decreases self.pairs@.len() - i,
        {
            if self.pairs[i].0.as_str().unicode_len() == key.unicode_len() && str_eq(self.pairs[i].0.as_str(), key) {
                assert(ps[i as int].0 == key@);
                let entry = (key.to_string(), value.to_string());
                self.pairs.set(i, entry);
                proof {
                    let c = choose|j: int| 0 <= j < ps.len() && ps[j].0 == key@;
                    assert(c == i) by {
                        if c < i {
                        } else if c > i {
                            assert(ps[i as int].0 != ps[c].0);
                        }
                    }
                    assert(pair_views(self.pairs@) =~= ps.update(i as int, (key@, value@)));
                    assert(keys_unique(pair_views(self.pairs@)));
                }
                return;
            }
            i = i + 1;
        }
        self.pairs.push((key.to_string(), value.to_string()));
        assert(pair_views(self.pairs@) =~= ps.push((key@, value@)));
    }

    /// The label block of a sample line.
    pub fn render_block(&self, out: &mut String)
        ensures
            final(out)@ == old(out)@ + labels_block(self.pairs_view()),
    {
        proof {
            reveal_strlit("{");
            reveal_strlit("}");
            reveal_strlit(",");
            reveal_strlit("=\"");
            reveal_strlit("\"");
        }
        let ghost ps = self.pairs_view();
        if self.pairs.len() == 0 {
            assert(old(out)@ + labels_block(ps) =~= old(out)@);
            return;
        }
        out.append("{");
        let ghost start = out@;
        let mut i: usize = 0;
        while i < self.pairs.len()
            invariant
                i <= self.pairs@.len(),
                self.pairs@.len() > 0,
                ps == pair_views(self.pairs@),
                out@ == start + labels_joined(ps.subrange(0, i as int)),
            decreases self.pairs@.len() - i,
        {
            if i > 0 {
                out.append(",");
            }
            out.append(self.pairs[i].0.as_str());
            out.append("=\"");
            out.append(self.pairs[i].1.as_str());
            out.append("\"");
            let ghost sub = ps.subrange(0, i + 1);
            assert(sub.drop_last() =~= ps.subrange(0, i as int));
            assert(sub.last() == ps[i as int]);
            if i == 0 {
                assert(sub.len() == 1);
            }
            i = i + 1;
        }
        out.append("}");
        assert(ps.subrange(0, ps.len() as int) =~= ps);
    }
}

impl Clone for Labels {
    fn clone(&self) -> (c: Self)
        ensures
            c.pairs_view() == self.pairs_view(),
    {
        let mut pairs: Vec<(String, String)> = Vec::new();
        let mut i: usize = 0;
        while i < self.pairs.len()
            invariant
                i <= self.pairs@.len(),
                pair_views(pairs@) == pair_views(self.pairs@).subrange(0, i as int),
            decreases self.pairs@.len() - i,
        {
            let k = self.pairs[i].0.clone();
            let v = self.pairs[i].1.clone();
            let ghost before = pairs@;
            pairs.push((k, v));
            assert(pairs@ == before.push((k, v)));
            assert(pair_views(self.pairs@)[i as int] == (k@, v@));
            assert(pair_views(pairs@) =~= pair_views(before).push((k@, v@)));
            assert(pair_views(pairs@) =~= pair_views(self.pairs@).subrange(0, i + 1));
            i = i + 1;
        }
        assert(pair_views(self.pairs@).subrange(0, i as int) =~= pair_views(self.pairs@));
        Labels { pairs }
    }
}

/// Whether two strings of equal length have the same characters.
fn str_eq(a: &str, b: &str) -> (r: bool)
    requires
        a@.len() == b@.len(),
    ensures
        r == (a@ == b@),
{
    let n = a.unicode_len();
    let mut i: usize = 0;
    while i < n
        invariant
            i <= n,
            n == a@.len(),
            n == b@.len(),
            forall|j: int| 0 <= j < i ==> a@[j] == b@[j],
        decreases n - i,
    {
        if a.get_char(i) != b.get_char(i) {
            return false;
        }
        i = i + 1;
    }
    assert(a@ =~= b@);
    true
}

/// SDK telemetry configuration.
#[derive(Debug)]
pub struct TelemetryConfig {
    /// Enable metrics collection
    pub metrics_enabled: bool,
    /// Enable structured logging
    pub logging_enabled: bool,
    /// Enable distributed tracing
    pub tracing_enabled: bool,
    /// Metrics export interval
    pub export_interval: Duration,
    /// Service name for tracing
    pub service_name: String,
    /// Custom labels for metrics
    pub labels: Labels,
}

impl Default for TelemetryConfig {
    fn default() -> (c: Self)
        ensures
            c.metrics_enabled,
            c.logging_enabled,
            !c.tracing_enabled,
            c.service_name@ == "kraken-ws-sdk"@,
            duration_nanos(c.export_interval) == 60_000_000_000,
            c.labels.wf(),
            c.labels.pairs_view().len() == 0,
    {
        TelemetryConfig {
            metrics_enabled: true,
            logging_enabled: true,
            tracing_enabled: false,
            export_interval: duration_from_secs(60),
            service_name: "kraken-ws-sdk".to_string(),
            labels: Labels::new(),
        }
    }
}

impl TelemetryConfig {
    /// A builder starting from the default configuration.
    pub fn builder() -> (b: TelemetryConfigBuilder)
        ensures
            b.wf(),
            b.cfg().metrics_enabled,
            b.cfg().logging_enabled,
            !b.cfg().tracing_enabled,
            b.cfg().service_name@ == "kraken-ws-sdk"@,
            duration_nanos(b.cfg().export_interval) == 60_000_000_000,
            b.cfg().labels.pairs_view().len() == 0,
    {
        TelemetryConfigBuilder::new()
    }
}

/// Builder for `TelemetryConfig`.
pub struct TelemetryConfigBuilder {
    config: TelemetryConfig,
}

impl TelemetryConfigBuilder {
    /// The configuration being built.
    pub closed spec fn cfg(&self) -> TelemetryConfig {
        self.config
    }

    /// The labels hold each key once.
    pub closed spec fn wf(&self) -> bool {
        self.config.labels.wf()
    }

    /// Start from the default configuration.
    pub fn new() -> (b: Self)
        ensures
            b.wf(),
            b.cfg().metrics_enabled,
            b.cfg().logging_enabled,
            !b.cfg().tracing_enabled,
            b.cfg().service_name@ == "kraken-ws-sdk"@,
            duration_nanos(b.cfg().export_interval) == 60_000_000_000,
            b.cfg().labels.pairs_view().len() == 0,
    {
        TelemetryConfigBuilder { config: TelemetryConfig::default() }
    }

    /// Set the service name.
    pub fn service_name(self, name: &str) -> (b: Self)
        ensures
            b.cfg() == (TelemetryConfig { service_name: b.cfg().service_name, ..self.cfg() }),
            b.cfg().service_name@ == name@,
            b.wf() == self.wf(),
    {
        let mut this = self;
        this.config.service_name = name.to_string();
        this
    }

    /// Enable or disable metrics.
    pub fn with_metrics(self, enabled: bool) -> (b: Self)
        ensures
            b.cfg() == (TelemetryConfig { metrics_enabled: enabled, ..self.cfg() }),
            b.wf() == self.wf(),
    {
        let mut this = self;
        this.config.metrics_enabled = enabled;
        this
    }

    /// Enable or disable tracing.
    pub fn with_tracing(self, enabled: bool) -> (b: Self)
        ensures
            b.cfg() == (TelemetryConfig { tracing_enabled: enabled, ..self.cfg() }),
            b.wf() == self.wf(),
    {
        let mut this = self;
        this.config.tracing_enabled = enabled;
        this
    }

    /// Set the export interval.
    pub fn export_interval(self, interval: Duration) -> (b: Self)
        ensures
            b.cfg() == (TelemetryConfig { export_interval: interval, ..self.cfg() }),
            b.wf() == self.wf(),
    {
        let mut this = self;
        this.config.export_interval = interval;
        this
    }

    /// Set a label.
    pub fn label(self, key: &str, value: &str) -> (b: Self)
        requires
            self.wf(),
        ensures
            b.wf(),
            b.cfg().labels.pairs_view() == set_label(self.cfg().labels.pairs_view(), key@, value@),
            b.cfg().service_name == self.cfg().service_name,
            b.cfg().metrics_enabled == self.cfg().metrics_enabled,
            b.cfg().logging_enabled == self.cfg().logging_enabled,
            b.cfg().tracing_enabled == self.cfg().tracing_enabled,
            b.cfg().export_interval == self.cfg().export_interval,
    {
        let mut this = self;
        this.config.labels.insert(key, value);
        this
    }

    /// The configuration built.
    pub fn build(self) -> (c: TelemetryConfig)
        ensures
            c == self.cfg(),
    {
        self.config
    }
}

impl Default for TelemetryConfigBuilder {
    fn default() -> (b: Self)
        ensures
            b.wf(),
            b.cfg().service_name@ == "kraken-ws-sdk"@,
    {
        Self::new()
    }
}

/// Counter metric: a count that only goes up (wrapping around past `u64::MAX`).
#[derive(Debug)]
pub struct Counter {
    name: String,
    help: String,
    value: u64,
    labels: Labels,
}

impl Counter {
    /// The metric name.
    pub closed spec fn name_view(&self) -> Seq<char> {
        self.name@
    }

    /// The help text.
    pub closed spec fn help_view(&self) -> Seq<char> {
        self.help@
    }

    /// The count.
    pub closed spec fn count(&self) -> u64 {
        self.value
    }

    /// The labels.
    pub closed spec fn label_pairs(&self) -> Seq<(Seq<char>, Seq<char>)> {
        self.labels.pairs_view()
    }

    /// Labels hold each key once.
    pub closed spec fn wf(&self) -> bool {
        self.labels.wf()
    }

    /// A counter at zero, without labels.
    pub fn new(name: &str, help: &str) -> (c: Self)
        ensures
            c.wf(),
            c.name_view() == name@,
            c.help_view() == help@,
            c.count() == 0,
            c.label_pairs().len() == 0,
    {
        Counter { name: name.to_string(), help: help.to_string(), value: 0, labels: Labels::new() }
    }

    /// Set a label.
    pub fn with_label(self, key: &str, value: &str) -> (c: Self)
        requires
            self.wf(),
        ensures
            c.wf(),
            c.label_pairs() == set_label(self.label_pairs(), key@, value@),
            c.name_view() == self.name_view(),
            c.help_view() == self.help_view(),
            c.count() == self.count(),
    {
        let mut this = self;
        this.labels.insert(key, value);
        this
    }

    /// Add one.
    pub fn inc(&mut self)
        ensures
            final(self).count() == (old(self).count() + 1) % 0x1_0000_0000_0000_0000,
            final(self).name_view() == old(self).name_view(),
            final(self).help_view() == old(self).help_view(),
            final(self).label_pairs() == old(self).label_pairs(),
            final(self).wf() == old(self).wf(),
    {
        self.value = self.value.wrapping_add(1);
    }

    /// Add `n`.
    pub fn inc_by(&mut self, n: u64)
        ensures
            final(self).count() == (old(self).count() + n) % 0x1_0000_0000_0000_0000,
            final(self).name_view() == old(self).name_view(),
            final(self).help_view() == old(self).help_view(),
            final(self).label_pairs() == old(self).label_pairs(),
            final(self).wf() == old(self).wf(),
    {
        self.value = self.value.wrapping_add(n);
    }

    /// The count.
    pub fn get(&self) -> (n: u64)
        ensures
            n == self.count(),
    {
        self.value
    }

    /// The counter in the Prometheus text format.
    pub fn to_prometheus(&self) -> (s: String)
        ensures
            s@ == metric_text(
                self.name_view(),
                self.help_view(),
                "counter"@,
                self.label_pairs(),
                decimal(self.count() as nat),
            ),
    {
        render_metric(&self.name, &self.help, "counter", &self.labels, &u64_to_decimal(self.value))
    }
}

/// Render a metric in the Prometheus text format.
fn render_metric(name: &String, help: &String, kind: &str, labels: &Labels, value: &String) -> (s: String)
    ensures
        s@ == metric_text(name@, help@, kind@, labels.pairs_view(), value@),
{
    proof {
        reveal_strlit("# HELP ");
        reveal_strlit(" ");
        reveal_strlit("\n# TYPE ");
        reveal_strlit("\n");
    }
    let mut s = String::new();
    s.append("# HELP ");
    s.append(name.as_str());
    s.append(" ");
    s.append(help.as_str());
    s.append("\n# TYPE ");
    s.append(name.as_str());
    s.append(" ");
    s.append(kind);
    s.append("\n");
    s.append(name.as_str());
    labels.render_block(&mut s);
    s.append(" ");
    s.append(value.as_str());
    assert(s@ =~= metric_text(name@, help@, kind@, labels.pairs_view(), value@));
    s
}

/// Gauge metric: a value that goes up and down (wrapping around at the ends of `i64`).
#[derive(Debug)]
pub struct Gauge {
    name: String,
    help: String,
    value: i64,
    labels: Labels,
}

/// `v + d` wrapped into the range of `i64`.
pub open spec fn wrap_i64(v: int) -> i64 {
    (((v + 0x8000_0000_0000_0000) % 0x1_0000_0000_0000_0000) - 0x8000_0000_0000_0000) as i64
}

impl Gauge {
    /// The metric name.
    pub closed spec fn name_view(&self) -> Seq<char> {
        self.name@
    }

    /// The help text.
    pub closed spec fn help_view(&self) -> Seq<char> {
        self.help@
    }

    /// The value.
    pub closed spec fn level(&self) -> i64 {
        self.value
    }

    /// The labels.
    pub closed spec fn label_pairs(&self) -> Seq<(Seq<char>, Seq<char>)> {
        self.labels.pairs_view()
    }

    /// Labels hold each key once.
    pub closed spec fn wf(&self) -> bool {
        self.labels.wf()
    }

    /// A gauge at zero, without labels.
    pub fn new(name: &str, help: &str) -> (g: Self)
        ensures
            g.wf(),
            g.name_view() == name@,
            g.help_view() == help@,
            g.level() == 0,
            g.label_pairs().len() == 0,
    {
        Gauge { name: name.to_string(), help: help.to_string(), value: 0, labels: Labels::new() }
    }

    /// Set a label.
    pub fn with_label(self, key: &str, value: &str) -> (g: Self)
        requires
            self.wf(),
        ensures
            g.wf(),
            g.label_pairs() == set_label(self.label_pairs(), key@, value@),
            g.name_view() == self.name_view(),
            g.help_view() == self.help_view(),
            g.level() == self.level(),
    {
        let mut this = self;
        this.labels.insert(key, value);
        this
    }

    /// Set the value.
    pub fn set(&mut self, v: i64)
        ensures
            final(self).level() == v,
            final(self).name_view() == old(self).name_view(),
            final(self).help_view() == old(self).help_view(),
            final(self).label_pairs() == old(self).label_pairs(),
            final(self).wf() == old(self).wf(),
    {
        self.value = v;
    }

    /// Add one.
    pub fn inc(&mut self)
        ensures
            final(self).level() == wrap_i64(old(self).level() + 1),
            final(self).name_view() == old(self).name_view(),
            final(self).help_view() == old(self).help_view(),
            final(self).label_pairs() == old(self).label_pairs(),
            final(self).wf() == old(self).wf(),
    {
        self.value = if self.value == i64::MAX {
            i64::MIN
        } else {
            self.value + 1
        };
    }

    /// Subtract one.
    pub fn dec(&mut self)
        ensures
            final(self).level() == wrap_i64(old(self).level() - 1),
            final(self).name_view() == old(self).name_view(),
            final(self).help_view() == old(self).help_view(),
            final(self).label_pairs() == old(self).label_pairs(),
            final(self).wf() == old(self).wf(),
    {
        self.value = if self.value == i64::MIN {
            i64::MAX
        } else {
            self.value - 1
        };
    }

    /// The value.
    pub fn get(&self) -> (n: i64)
        ensures
            n == self.level(),
    {
        self.value
    }

    /// The gauge in the Prometheus text format.
    pub fn to_prometheus(&self) -> (s: String)
        ensures
            s@ == metric_text(
                self.name_view(),
                self.help_view(),
                "gauge"@,
                self.label_pairs(),
                signed_decimal(self.level() as int),
            ),
    {
        render_metric(&self.name, &self.help, "gauge", &self.labels, &i64_to_decimal(self.value))
    }
}

/// A message logged on a span.
#[derive(Debug, Clone)]
pub struct SpanLog {
    /// Microseconds since the Unix epoch (UTC)
    pub timestamp: i64,
    pub message: String,
}

/// A span of a distributed trace.
#[derive(Debug)]
pub struct Span {
    pub trace_id: String,
    pub span_id: String,
    pub parent_span_id: Option<String>,
    pub operation_name: String,
    pub start_time: Instant,
    pub end_time: Option<Instant>,
    pub tags: Labels,
    pub logs: Vec<SpanLog>,
}

/// A fresh span identifier: the first sixteen characters of a random
/// hyphenated UUID: eight hexadecimal digits, a hyphen, four digits, a
/// hyphen and two more digits.
fn short_id() -> (s: String)
    ensures
        s@.len() == 16,
        s@[8] == '-',
        s@[13] == '-',
        forall|i: int| 0 <= i < 16 && i != 8 && i != 13 ==> is_lower_hex(#[trigger] s@[i]),
{
    let id = new_request_id();
    let s = id.as_str().substring_char(0, 16).to_string();
    proof {
        assert(s@[8] == id@[8]);
        assert(s@[13] == id@[13]);
        assert forall|i: int| 0 <= i < 16 && i != 8 && i != 13 implies is_lower_hex(#[trigger] s@[i]) by {
            assert(s@[i] == id@[i]);
            assert(is_lower_hex(id@[i]));
        }
    }
    s
}

impl Span {
    /// A root span of a new trace, started now.
    pub fn new(operation_name: &str) -> (s: Self)
        ensures
            s.operation_name@ == operation_name@,
            s.span_id@.len() == 16,
            s.parent_span_id is None,
            s.end_time is None,
            s.tags.wf(),
            s.tags.pairs_view().len() == 0,
            s.logs@.len() == 0,
    {
        Span {
            trace_id: new_request_id(),
            span_id: short_id(),
            parent_span_id: None,
            operation_name: operation_name.to_string(),
            start_time: instant_now(),
            end_time: None,
            tags: Labels::new(),
            logs: Vec::new(),
        }
    }

    /// A span of the same trace under this one, started now.
    pub fn child(&self, operation_name: &str) -> (c: Self)
        ensures
            c.trace_id@ == self.trace_id@,
            c.parent_span_id matches Some(p) && p@ == self.span_id@,
            c.operation_name@ == operation_name@,
            c.span_id@.len() == 16,
            c.end_time is None,
            c.tags.wf(),
            c.tags.pairs_view().len() == 0,
            c.logs@.len() == 0,
    {
        Span {
            trace_id: self.trace_id.clone(),
            span_id: short_id(),
            parent_span_id: Some(self.span_id.clone()),
            operation_name: operation_name.to_string(),
            start_time: instant_now(),
            end_time: None,
            tags: Labels::new(),
            logs: Vec::new(),
        }
    }

    /// The span with `key` tagged `value`.
    pub fn tag(self, key: &str, value: &str) -> (s: Self)
        requires
            self.tags.wf(),
        ensures
            s.tags.wf(),
            s.tags.pairs_view() == set_label(self.tags.pairs_view(), key@, value@),
            s.trace_id == self.trace_id,
            s.span_id == self.span_id,
            s.parent_span_id == self.parent_span_id,
            s.operation_name == self.operation_name,
            s.end_time == self.end_time,
            s.logs == self.logs,
    {
        let mut s = self;
        s.tags.insert(key, value);
        s
    }

    /// Logs a message on the span, stamped now.
    pub fn log(&mut self, message: &str)
        ensures
            final(self).logs@.len() == old(self).logs@.len() + 1,
            final(self).logs@.take(old(self).logs@.len() as int) == old(self).logs@,
            final(self).logs@.last().message@ == message@,
            final(self).trace_id == old(self).trace_id,
            final(self).span_id == old(self).span_id,
            final(self).end_time == old(self).end_time,
            final(self).tags == old(self).tags,
    {
        self.logs.push(SpanLog { timestamp: utc_now_micros(), message: message.to_string() });
        assert(self.logs@.take(old(self).logs@.len() as int) =~= old(self).logs@);
    }

    /// Ends the span now.
    pub fn finish(&mut self)
        ensures
            final(self).end_time is Some,
            final(self).trace_id == old(self).trace_id,
            final(self).span_id == old(self).span_id,
            final(self).tags == old(self).tags,
            final(self).logs == old(self).logs,
    {
        self.end_time = Some(instant_now());
    }

    /// How long the span lasted, once finished.
    pub fn duration(&self) -> (d: Option<Duration>)
        ensures
            d is Some <==> self.end_time is Some,
    {
        match &self.end_time {
            Some(end) => Some(duration_between(&self.start_time, end)),
            None => None,
        }
    }
}

} // verus!
