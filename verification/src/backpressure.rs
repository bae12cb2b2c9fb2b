//! Backpressure and throttling control: per-channel message rate limiting,
//! drop policies and coalescing of updates for the same symbol.
//!
//! Time enters the decisions as a [`Moment`]: the caller's reading of the
//! clocks, so that every decision is a function of the state and the moment.

use crate::clock::{elapsed_micros, elapsed_nanos, instant_now, utc_now_micros};
use std::collections::VecDeque;
use std::time::Instant;
use vstd::prelude::*;

verus! {

broadcast use vstd::string::group_string_axioms;

/// Drop policy when the buffer is full or the rate is exceeded.
#[derive(Debug, Clone, Copy, PartialEq, Eq, Structural)]
pub enum DropPolicy {
    /// Drop oldest messages first (FIFO overflow)
    Oldest,
    /// Drop newest messages (reject new)
    Latest,
    /// Drop randomly to maintain statistical fairness
    Random,
    /// Never drop, block instead
    Block,
}

impl Default for DropPolicy {
    fn default() -> (p: Self)
        ensures
            p == DropPolicy::Oldest,
    {
        DropPolicy::Oldest
    }
}

/// Backpressure configuration.
#[derive(Debug, Clone, Copy, PartialEq, Eq, Structural)]
pub struct BackpressureConfig {
    /// Maximum messages per second (0 = unlimited)
    pub max_messages_per_second: u32,
    /// Maximum buffer size per channel
    pub max_buffer_size: usize,
    /// Drop policy when limits exceeded
    pub drop_policy: DropPolicy,
    /// Coalesce updates for same symbol (keep latest)
    pub coalesce_updates: bool,
    /// Burst allowance (messages above rate for short bursts)
    pub burst_allowance: u32,
    /// Window size for rate calculation (ms)
    pub rate_window_ms: u64,
}

/// The default configuration.
pub open spec fn default_backpressure_config() -> BackpressureConfig {
    BackpressureConfig {
        max_messages_per_second: 1000,
        max_buffer_size: 10000,
        drop_policy: DropPolicy::Oldest,
        coalesce_updates: true,
        burst_allowance: 100,
        rate_window_ms: 1000,
    }
}

impl Default for BackpressureConfig {
    fn default() -> (c: Self)
        ensures
            c == default_backpressure_config(),
    {
        BackpressureConfig {
            max_messages_per_second: 1000,
            max_buffer_size: 10000,
            drop_policy: DropPolicy::Oldest,
            coalesce_updates: true,
            burst_allowance: 100,
            rate_window_ms: 1000,
        }
    }
}

/// The clocks as read for one message: the monotonic time since the manager
/// started, the wall clock for event timestamps, and a free-running reading
/// used to pick a victim under the random drop policy.
#[derive(Debug, Clone, Copy, PartialEq, Eq, Structural)]
pub struct Moment {
    /// Microseconds on the monotonic clock since the manager was created
    pub since_start_micros: u64,
    /// Microseconds since the Unix epoch (UTC)
    pub wall_micros: i64,
    /// Free-running counter (nanoseconds) read at the same time
    pub pick: u64,
}

/// Result of processing a message through backpressure.
///
/// The message rate, in messages per second, is `window_messages` divided by
/// the length of the rate window in seconds.
#[derive(Debug, Clone, Copy, PartialEq, Eq, Structural)]
pub struct BackpressureResult {
    /// Whether message was accepted
    pub accepted: bool,
    /// Whether message was dropped
    pub dropped: bool,
    /// Whether message was coalesced with existing
    pub coalesced: bool,
    /// Current queue depth
    pub queue_depth: usize,
    /// Messages seen in the current rate window
    pub window_messages: usize,
    /// Messages dropped so far on the channel
    pub dropped_count: u64,
    /// Messages coalesced so far on the channel
    pub coalesced_count: u64,
}

/// Statistics for backpressure monitoring.
#[derive(Debug, Clone, Copy, PartialEq, Eq, Structural)]
pub struct BackpressureStats {
    /// Total messages received
    pub total_received: u64,
    /// Total messages accepted
    pub total_accepted: u64,
    /// Total messages dropped
    pub total_dropped: u64,
    /// Total messages coalesced
    pub total_coalesced: u64,
    /// Most messages seen in one rate window
    pub peak_window_messages: usize,
    /// Messages in the current rate window
    pub window_messages: usize,
    /// Peak queue depth
    pub peak_queue_depth: usize,
    /// Current queue depth
    pub current_queue_depth: usize,
}

/// All counters at zero.
pub open spec fn zero_stats() -> BackpressureStats {
    BackpressureStats {
        total_received: 0,
        total_accepted: 0,
        total_dropped: 0,
        total_coalesced: 0,
        peak_window_messages: 0,
        window_messages: 0,
        peak_queue_depth: 0,
        current_queue_depth: 0,
    }
}

impl Default for BackpressureStats {
    fn default() -> (s: Self)
        ensures
            s == zero_stats(),
    {
        BackpressureStats {
            total_received: 0,
            total_accepted: 0,
            total_dropped: 0,
            total_coalesced: 0,
            peak_window_messages: 0,
            window_messages: 0,
            peak_queue_depth: 0,
            current_queue_depth: 0,
        }
    }
}

/// A message with its routing metadata.
#[derive(Debug)]
pub struct BufferedMessage {
    pub channel: String,
    pub symbol: String,
    pub data: String,
    pub sequence: Option<u64>,
    pub received_at: Instant,
    /// Microseconds since the Unix epoch (UTC)
    pub timestamp: i64,
}

/// Reason for dropping.
#[derive(Debug, Clone, Copy, PartialEq, Eq, Structural)]
pub enum DropReason {
    RateLimitExceeded { window_messages: usize, limit: u32 },
    BufferFull { size: usize, max: usize },
    PolicyDecision { policy: DropPolicy },
}

/// Drop event details.
#[derive(Debug)]
pub struct DropEvent {
    pub channel: String,
    pub symbol: String,
    pub reason: DropReason,
    pub dropped_count: u64,
    pub queue_depth: usize,
    pub window_messages: usize,
    pub timestamp: i64,
}

/// Coalesce event details.
#[derive(Debug)]
pub struct CoalesceEvent {
    pub channel: String,
    pub symbol: String,
    pub old_sequence: Option<u64>,
    pub new_sequence: Option<u64>,
    pub coalesced_count: u64,
    pub timestamp: i64,
}

/// Rate limit event details.
#[derive(Debug)]
pub struct RateLimitEvent {
    pub channel: String,
    pub window_messages: usize,
    pub limit: u32,
    pub action_taken: String,
    pub timestamp: i64,
}

/// An event for the listeners of a manager, in the order it happened.
#[derive(Debug)]
pub enum BackpressureEvent {
    Drop(DropEvent),
    Coalesce(CoalesceEvent),
    RateLimit(RateLimitEvent),
}

/// What an event says, with its texts as character sequences.
pub enum EventView {
    Drop {
        channel: Seq<char>,
        symbol: Seq<char>,
        reason: DropReason,
        dropped_count: u64,
        queue_depth: usize,
        window_messages: usize,
        timestamp: i64,
    },
    Coalesce {
        channel: Seq<char>,
        symbol: Seq<char>,
        old_sequence: Option<u64>,
        new_sequence: Option<u64>,
        coalesced_count: u64,
        timestamp: i64,
    },
    RateLimit {
        channel: Seq<char>,
        window_messages: usize,
        limit: u32,
        action_taken: Seq<char>,
        timestamp: i64,
    },
}

impl View for BackpressureEvent {
    type V = EventView;

    open spec fn view(&self) -> EventView {
        match self {
            BackpressureEvent::Drop(e) => EventView::Drop {
                channel: e.channel@,
                symbol: e.symbol@,
                reason: e.reason,
                dropped_count: e.dropped_count,
                queue_depth: e.queue_depth,
                window_messages: e.window_messages,
                timestamp: e.timestamp,
            },
            BackpressureEvent::Coalesce(e) => EventView::Coalesce {
                channel: e.channel@,
                symbol: e.symbol@,
                old_sequence: e.old_sequence,
                new_sequence: e.new_sequence,
                coalesced_count: e.coalesced_count,
                timestamp: e.timestamp,
            },
            BackpressureEvent::RateLimit(e) => EventView::RateLimit {
                channel: e.channel@,
                window_messages: e.window_messages,
                limit: e.limit,
                action_taken: e.action_taken@,
                timestamp: e.timestamp,
            },
        }
    }
}

/// The views of a list of events.
pub open spec fn events_view(v: Seq<BackpressureEvent>) -> Seq<EventView> {
    v.map_values(|e: BackpressureEvent| e@)
}

/// The name of a policy as `{:?}` prints it.
pub open spec fn policy_name(p: DropPolicy) -> Seq<char> {
    match p {
        DropPolicy::Oldest => "Oldest"@,
        DropPolicy::Latest => "Latest"@,
        DropPolicy::Random => "Random"@,
        DropPolicy::Block => "Block"@,
    }
}

/// The action a rate-limit event reports.
pub open spec fn action_text(p: DropPolicy) -> Seq<char> {
    "Applying "@ + policy_name(p) + " policy"@
}

/// Builds the action text of a rate-limit event.
fn action_string(p: DropPolicy) -> (s: String)
    ensures
        s@ == action_text(p),
{
    proof {
        reveal_strlit("Applying ");
        reveal_strlit(" policy");
        reveal_strlit("Oldest");
        reveal_strlit("Latest");
        reveal_strlit("Random");
        reveal_strlit("Block");
    }
    let mut s = "Applying ".to_string();
    match p {
        DropPolicy::Oldest => s.append("Oldest"),
        DropPolicy::Latest => s.append("Latest"),
        DropPolicy::Random => s.append("Random"),
        DropPolicy::Block => s.append("Block"),
    }
    s.append(" policy");
    s
}

// ---------------------------------------------------------------------------
// The model of one channel
// ---------------------------------------------------------------------------

/// What a channel holds: its FIFO buffer, the latest message per symbol when
/// coalescing, the monotonic times of the messages in the rate window, and
/// its statistics.
pub struct ChannelView {
    pub buffer: Seq<BufferedMessage>,
    pub coalesced: Seq<BufferedMessage>,
    pub timestamps: Seq<u64>,
    pub stats: BackpressureStats,
}

/// A channel with nothing in it.
pub open spec fn empty_channel() -> ChannelView {
    ChannelView { buffer: Seq::empty(), coalesced: Seq::empty(), timestamps: Seq::empty(), stats: zero_stats() }
}

/// Whether a message seen at monotonic time `t` has left a window of
/// `window_ms` milliseconds at time `now`.
pub open spec fn expired(t: u64, now: u64, window_ms: u64) -> bool {
    now > t && now - t > window_ms * 1000
}

/// The window after dropping, from the front, the times that have expired;
/// the first time still inside the window stops the pruning.
pub open spec fn pruned(ts: Seq<u64>, now: u64, window_ms: u64) -> Seq<u64>
    decreases ts.len(),
{
    if ts.len() > 0 && expired(ts[0], now, window_ms) {
        pruned(ts.subrange(1, ts.len() as int), now, window_ms)
    } else {
        ts
    }
}

/// Whether a channel with `n` messages in its window is over the rate limit
/// plus the burst allowance (no limit when the rate limit is 0).
pub open spec fn rate_exceeded(cfg: BackpressureConfig, n: nat) -> bool {
    &&& cfg.max_messages_per_second > 0
    &&& if cfg.rate_window_ms == 0 {
        n > 0
    } else {
        n * 1000 >= (cfg.max_messages_per_second + cfg.burst_allowance) * cfg.rate_window_ms
    }
}

/// The channel after a message arrives at `now`: counted, and the window pruned.
pub open spec fn arrived(cfg: BackpressureConfig, s: ChannelView, now: u64) -> ChannelView {
    let ts = pruned(s.timestamps, now, cfg.rate_window_ms);
    let n = ts.len() as usize;
    ChannelView {
        timestamps: ts,
        stats: BackpressureStats {
            total_received: (s.stats.total_received + 1) as u64,
            window_messages: n,
            peak_window_messages: if n > s.stats.peak_window_messages {
                n
            } else {
                s.stats.peak_window_messages
            },
            ..s.stats
        },
        ..s
    }
}

/// A drop event.
pub open spec fn drop_view(
    channel: Seq<char>,
    symbol: Seq<char>,
    reason: DropReason,
    s: ChannelView,
    n: usize,
    now: Moment,
) -> EventView {
    EventView::Drop {
        channel,
        symbol,
        reason,
        dropped_count: s.stats.total_dropped,
        queue_depth: s.buffer.len() as usize,
        window_messages: n,
        timestamp: now.wall_micros,
    }
}

/// The channel with one more message counted as dropped.
pub open spec fn count_drop(s: ChannelView) -> ChannelView {
    ChannelView { stats: BackpressureStats { total_dropped: (s.stats.total_dropped + 1) as u64, ..s.stats }, ..s }
}

/// What the rate policy does to the buffer when the rate is exceeded and the
/// policy is not `Latest`: `Oldest` drops the front, `Random` drops the
/// message at `pick` modulo the length, `Block` drops nothing.
pub open spec fn rate_drop(cfg: BackpressureConfig, s: ChannelView, n: usize, now: Moment) -> (ChannelView, Seq<EventView>) {
    let len = s.buffer.len();
    match cfg.drop_policy {
        DropPolicy::Oldest => if len > 0 {
            let d = s.buffer[0];
            let s2 = count_drop(ChannelView { buffer: s.buffer.subrange(1, len as int), ..s });
            let reason = DropReason::RateLimitExceeded { window_messages: n, limit: cfg.max_messages_per_second };
            (s2, seq![drop_view(d.channel@, d.symbol@, reason, s2, n, now)])
        } else {
            (s, Seq::empty())
        },
        DropPolicy::Random => if len > 0 {
            let i = (now.pick % (len as u64)) as int;
            let d = s.buffer[i];
            let s2 = count_drop(ChannelView { buffer: s.buffer.remove(i), ..s });
            let reason = DropReason::PolicyDecision { policy: DropPolicy::Random };
            (s2, seq![drop_view(d.channel@, d.symbol@, reason, s2, n, now)])
        } else {
            (s, Seq::empty())
        },
        _ => (s, Seq::empty()),
    }
}

/// What a full buffer leads to when the policy is not `Latest`: `Oldest`
/// drops the front, the other policies let the buffer grow.
pub open spec fn space_drop(cfg: BackpressureConfig, s: ChannelView, n: usize, now: Moment) -> (ChannelView, Seq<EventView>) {
    let len = s.buffer.len();
    if len >= cfg.max_buffer_size && cfg.drop_policy == DropPolicy::Oldest && len > 0 {
        let d = s.buffer[0];
        let s2 = count_drop(ChannelView { buffer: s.buffer.subrange(1, len as int), ..s });
        let reason = DropReason::BufferFull { size: s2.buffer.len() as usize, max: cfg.max_buffer_size };
        (s2, seq![drop_view(d.channel@, d.symbol@, reason, s2, n, now)])
    } else {
        (s, Seq::empty())
    }
}

/// Whether some coalesced message has the symbol.
pub open spec fn has_symbol(c: Seq<BufferedMessage>, sym: Seq<char>) -> bool {
    exists|i: int| 0 <= i < c.len() && #[trigger] c[i].symbol@ == sym
}

/// Whether `i` is the first slot holding the symbol.
pub open spec fn is_first_slot(c: Seq<BufferedMessage>, sym: Seq<char>, i: int) -> bool {
    &&& 0 <= i < c.len()
    &&& c[i].symbol@ == sym
    &&& forall|j: int| 0 <= j < i ==> #[trigger] c[j].symbol@ != sym
}

/// The first slot holding the symbol.
pub open spec fn symbol_slot(c: Seq<BufferedMessage>, sym: Seq<char>) -> int {
    choose|i: int| is_first_slot(c, sym, i)
}

/// What a channel, its answer and its events are after one step.
pub struct Outcome {
    pub state: ChannelView,
    pub result: BackpressureResult,
    pub events: Seq<EventView>,
}

/// The answer for a rejected message.
pub open spec fn rejected(s: ChannelView, n: usize) -> BackpressureResult {
    BackpressureResult {
        accepted: false,
        dropped: true,
        coalesced: false,
        queue_depth: s.buffer.len() as usize,
        window_messages: n,
        dropped_count: s.stats.total_dropped,
        coalesced_count: s.stats.total_coalesced,
    }
}

/// Storing an accepted message: replace the message of the same symbol
/// (counted as coalesced), add it to the coalesced set, or append it to the
/// buffer when coalescing is off; then record its time and the queue depth.
pub open spec fn accept(cfg: BackpressureConfig, s: ChannelView, msg: BufferedMessage, n: usize, now: Moment) -> Outcome {
    let merge = cfg.coalesce_updates && has_symbol(s.coalesced, msg.symbol@);
    let i = symbol_slot(s.coalesced, msg.symbol@);
    let coalesced_total = if merge { (s.stats.total_coalesced + 1) as u64 } else { s.stats.total_coalesced };
    let buffer = if cfg.coalesce_updates { s.buffer } else { s.buffer.push(msg) };
    let coalesced = if !cfg.coalesce_updates {
        s.coalesced
    } else if merge {
        s.coalesced.update(i, msg)
    } else {
        s.coalesced.push(msg)
    };
    let depth = (buffer.len() + coalesced.len()) as usize;
    let stats = BackpressureStats {
        total_accepted: (s.stats.total_accepted + 1) as u64,
        total_coalesced: coalesced_total,
        current_queue_depth: depth,
        peak_queue_depth: if depth > s.stats.peak_queue_depth { depth } else { s.stats.peak_queue_depth },
        ..s.stats
    };
    let events = if merge {
        seq![EventView::Coalesce {
            channel: msg.channel@,
            symbol: msg.symbol@,
            old_sequence: s.coalesced[i].sequence,
            new_sequence: msg.sequence,
            coalesced_count: coalesced_total,
            timestamp: now.wall_micros,
        }]
    } else {
        Seq::empty()
    };
    Outcome {
        state: ChannelView { buffer, coalesced, timestamps: s.timestamps.push(now.since_start_micros), stats },
        result: BackpressureResult {
            accepted: true,
            dropped: false,
            coalesced: merge,
            queue_depth: depth,
            window_messages: n,
            dropped_count: s.stats.total_dropped,
            coalesced_count: coalesced_total,
        },
        events,
    }
}

/// One message through a channel's flow control.
///
/// The message is counted and the rate window pruned. Over the rate limit a
/// rate-limit event is emitted and the policy applies: `Latest` rejects the
/// message, `Oldest` and `Random` drop a buffered message. Then, with the
/// buffer at its limit, `Latest` rejects the message and `Oldest` drops the
/// front. An accepted message is stored as [`accept`] says.
pub open spec fn channel_step(cfg: BackpressureConfig, s0: ChannelView, msg: BufferedMessage, now: Moment) -> Outcome {
    let s1 = arrived(cfg, s0, now.since_start_micros);
    let n = s1.stats.window_messages;
    let over = rate_exceeded(cfg, s1.timestamps.len());
    let limit_events = if over {
        seq![EventView::RateLimit {
            channel: msg.channel@,
            window_messages: n,
            limit: cfg.max_messages_per_second,
            action_taken: action_text(cfg.drop_policy),
            timestamp: now.wall_micros,
        }]
    } else {
        Seq::<EventView>::empty()
    };
    if over && cfg.drop_policy == DropPolicy::Latest {
        let s2 = count_drop(s1);
        let reason = DropReason::RateLimitExceeded { window_messages: n, limit: cfg.max_messages_per_second };
        Outcome {
            state: s2,
            result: rejected(s2, n),
            events: limit_events.push(drop_view(msg.channel@, msg.symbol@, reason, s2, n, now)),
        }
    } else {
        let (s2, rate_events) = if over { rate_drop(cfg, s1, n, now) } else { (s1, Seq::empty()) };
        if s2.buffer.len() >= cfg.max_buffer_size && cfg.drop_policy == DropPolicy::Latest {
            let s3 = count_drop(s2);
            let reason = DropReason::BufferFull { size: s2.buffer.len() as usize, max: cfg.max_buffer_size };
            Outcome {
                state: s3,
                result: rejected(s3, n),
                events: limit_events + rate_events + seq![drop_view(msg.channel@, msg.symbol@, reason, s3, n, now)],
            }
        } else {
            let (s3, space_events) = space_drop(cfg, s2, n, now);
            let o = accept(cfg, s3, msg, n, now);
            Outcome { events: limit_events + rate_events + space_events + o.events, ..o }
        }
    }
}

/// Whether the counters of a channel can take one more message without overflow.
pub open spec fn channel_has_room(s: ChannelView) -> bool {
    &&& s.stats.total_received < u64::MAX
    &&& s.stats.total_accepted < u64::MAX
    &&& s.stats.total_coalesced < u64::MAX
    &&& s.stats.total_dropped + 2 <= u64::MAX
    &&& s.buffer.len() + s.coalesced.len() + 1 < usize::MAX
    &&& s.timestamps.len() + 1 < usize::MAX
}

/// Whether a channel can store one more message without overflow.
pub open spec fn store_room(s: ChannelView) -> bool {
    &&& s.stats.total_accepted < u64::MAX
    &&& s.stats.total_coalesced < u64::MAX
    &&& s.buffer.len() + s.coalesced.len() + 1 < usize::MAX
    &&& s.timestamps.len() + 1 < usize::MAX
}

/// Pruning only shortens the window.
proof fn lemma_pruned_len(ts: Seq<u64>, now: u64, window_ms: u64)
    ensures
        pruned(ts, now, window_ms).len() <= ts.len(),
    decreases ts.len(),
{
    if ts.len() > 0 && expired(ts[0], now, window_ms) {
        lemma_pruned_len(ts.subrange(1, ts.len() as int), now, window_ms);
    }
}

/// The state of one channel.
#[derive(Debug)]
pub struct ChannelState {
    buffer: VecDeque<BufferedMessage>,
    /// Latest message per symbol, at most one per symbol
    coalesced: Vec<BufferedMessage>,
    /// Monotonic times (microseconds) of the messages in the rate window
    recent_timestamps: VecDeque<u64>,
    stats: BackpressureStats,
}

impl View for ChannelState {
    type V = ChannelView;

    closed spec fn view(&self) -> ChannelView {
        ChannelView {
            buffer: self.buffer@,
            coalesced: self.coalesced@,
            timestamps: self.recent_timestamps@,
            stats: self.stats,
        }
    }
}

/// Whether `t` has left the window at `now`.
fn is_expired(t: u64, now: u64, window_ms: u64) -> (b: bool)
    ensures
        b == expired(t, now, window_ms),
{
    now > t && ((now - t) as u128) > (window_ms as u128) * 1000
}

/// Drops the expired times from the front of the window.
fn prune_window(ts: &mut VecDeque<u64>, now: u64, window_ms: u64)
    ensures
        final(ts)@ == pruned(old(ts)@, now, window_ms),
{
    loop
        invariant
            pruned(ts@, now, window_ms) == pruned(old(ts)@, now, window_ms),
        ensures
            ts@ == pruned(old(ts)@, now, window_ms),
        decreases ts@.len(),
    {
        if ts.len() == 0 {
            break;
        }
        let front = ts[0];
        if is_expired(front, now, window_ms) {
            let _ = ts.pop_front();
        } else {
            break;
        }
    }
}

/// Whether `n` messages in the window exceed the rate limit plus the burst allowance.
fn over_rate(cfg: &BackpressureConfig, n: usize) -> (b: bool)
    ensures
        b == rate_exceeded(*cfg, n as nat),
{
    if cfg.max_messages_per_second == 0 {
        false
    } else if cfg.rate_window_ms == 0 {
        n > 0
    } else {
        let lhs = (n as u128) * 1000;
        let limit = (cfg.max_messages_per_second as u128) + (cfg.burst_allowance as u128);
        assert(limit * cfg.rate_window_ms <= 0x2_0000_0000u128 * 0x1_0000_0000_0000_0000u128) by (nonlinear_arith)
            requires
                limit <= 0x2_0000_0000u128,
                cfg.rate_window_ms < 0x1_0000_0000_0000_0000u128,
        ;
        lhs >= limit * (cfg.rate_window_ms as u128)
    }
}

/// Appending an event appends its view.
proof fn lemma_events_push(v: Seq<BackpressureEvent>, e: BackpressureEvent)
    ensures
        events_view(v.push(e)) == events_view(v).push(e@),
{
    assert(events_view(v.push(e)) =~= events_view(v).push(e@));
}

/// Appends an event to the queue.
fn emit(events: &mut Vec<BackpressureEvent>, e: BackpressureEvent)
    ensures
        events_view(final(events)@) == events_view(old(events)@).push(e@),
{
    proof {
        lemma_events_push(events@, e);
    }
    events.push(e);
}

/// The first coalesced message with the symbol.
fn find_symbol(c: &Vec<BufferedMessage>, sym: &String) -> (r: Option<usize>)
    ensures
        match r {
            Some(i) => is_first_slot(c@, sym@, i as int),
            None => !has_symbol(c@, sym@),
        },
{
    let mut i: usize = 0;
    while i < c.len()
        invariant
            i <= c@.len(),
            forall|j: int| 0 <= j < i ==> #[trigger] c@[j].symbol@ != sym@,
        decreases c@.len() - i,
    {
        if c[i].symbol == *sym {
            return Some(i);
        }
        i = i + 1;
    }
    None
}

/// The first slot is the one `symbol_slot` names.
proof fn lemma_first_slot(c: Seq<BufferedMessage>, sym: Seq<char>, i: int)
    requires
        is_first_slot(c, sym, i),
    ensures
        symbol_slot(c, sym) == i,
        has_symbol(c, sym),
{
    let k = symbol_slot(c, sym);
    assert(is_first_slot(c, sym, k));
    if k < i {
        assert(c[k].symbol@ != sym);
    } else if i < k {
        assert(c[i].symbol@ != sym);
    }
}

impl ChannelState {
    /// A channel with nothing in it.
    pub fn new() -> (s: Self)
        ensures
            s@ == empty_channel(),
    {
        ChannelState {
            buffer: VecDeque::new(),
            coalesced: Vec::new(),
            recent_timestamps: VecDeque::new(),
            stats: BackpressureStats::default(),
        }
    }

    /// The policy's drop when the rate is exceeded (for every policy but `Latest`).
    fn drop_for_rate(&mut self, cfg: &BackpressureConfig, n: usize, now: Moment, events: &mut Vec<BackpressureEvent>)
        requires
            cfg.drop_policy != DropPolicy::Latest,
            old(self)@.stats.total_dropped < u64::MAX,
        ensures
            final(self)@ == rate_drop(*cfg, old(self)@, n, now).0,
            events_view(final(events)@) == events_view(old(events)@) + rate_drop(*cfg, old(self)@, n, now).1,
    {
        let ghost s0 = self@;
        match cfg.drop_policy {
            DropPolicy::Oldest => {
                if let Some(d) = self.buffer.pop_front() {
                    self.stats.total_dropped = self.stats.total_dropped + 1;
                    let e = BackpressureEvent::Drop(DropEvent {
                        channel: d.channel,
                        symbol: d.symbol,
                        reason: DropReason::RateLimitExceeded {
                            window_messages: n,
                            limit: cfg.max_messages_per_second,
                        },
                        dropped_count: self.stats.total_dropped,
                        queue_depth: self.buffer.len(),
                        window_messages: n,
                        timestamp: now.wall_micros,
                    });
                    emit(events, e);
                    assert(self@ == rate_drop(*cfg, s0, n, now).0);
                    assert(events_view(events@) =~= events_view(old(events)@) + rate_drop(*cfg, s0, n, now).1);
                } else {
                    assert(events_view(events@) =~= events_view(old(events)@) + rate_drop(*cfg, s0, n, now).1);
                }
            },
            DropPolicy::Random => {
                let len = self.buffer.len();
                if len > 0 {
                    let idx = (now.pick % (len as u64)) as usize;
                    if let Some(d) = self.buffer.remove(idx) {
                        self.stats.total_dropped = self.stats.total_dropped + 1;
                        let e = BackpressureEvent::Drop(DropEvent {
                            channel: d.channel,
                            symbol: d.symbol,
                            reason: DropReason::PolicyDecision { policy: DropPolicy::Random },
                            dropped_count: self.stats.total_dropped,
                            queue_depth: self.buffer.len(),
                            window_messages: n,
                            timestamp: now.wall_micros,
                        });
                        emit(events, e);
                        assert(self@ == rate_drop(*cfg, s0, n, now).0);
                        assert(events_view(events@) =~= events_view(old(events)@) + rate_drop(*cfg, s0, n, now).1);
                    }
                } else {
                    assert(events_view(events@) =~= events_view(old(events)@) + rate_drop(*cfg, s0, n, now).1);
                }
            },
            _ => {
                assert(events_view(events@) =~= events_view(old(events)@) + rate_drop(*cfg, s0, n, now).1);
            },
        }
    }

    /// The drop a full buffer leads to (for every policy but `Latest`).
    fn drop_for_space(&mut self, cfg: &BackpressureConfig, n: usize, now: Moment, events: &mut Vec<BackpressureEvent>)
        requires
            old(self)@.stats.total_dropped < u64::MAX,
        ensures
            final(self)@ == space_drop(*cfg, old(self)@, n, now).0,
            events_view(final(events)@) == events_view(old(events)@) + space_drop(*cfg, old(self)@, n, now).1,
    {
        let ghost s0 = self@;
        if self.buffer.len() >= cfg.max_buffer_size && cfg.drop_policy == DropPolicy::Oldest {
            if let Some(d) = self.buffer.pop_front() {
                self.stats.total_dropped = self.stats.total_dropped + 1;
                let e = BackpressureEvent::Drop(DropEvent {
                    channel: d.channel,
                    symbol: d.symbol,
                    reason: DropReason::BufferFull { size: self.buffer.len(), max: cfg.max_buffer_size },
                    dropped_count: self.stats.total_dropped,
                    queue_depth: self.buffer.len(),
                    window_messages: n,
                    timestamp: now.wall_micros,
                });
                emit(events, e);
                assert(self@ == space_drop(*cfg, s0, n, now).0);
                assert(events_view(events@) =~= events_view(old(events)@) + space_drop(*cfg, s0, n, now).1);
                return;
            }
        }
        assert(events_view(events@) =~= events_view(old(events)@) + space_drop(*cfg, s0, n, now).1);
    }

    /// Stores an accepted message.
    fn store(
        &mut self,
        cfg: &BackpressureConfig,
        message: BufferedMessage,
        n: usize,
        now: Moment,
        events: &mut Vec<BackpressureEvent>,
    ) -> (r: BackpressureResult)
        requires
            store_room(old(self)@),
        ensures
            final(self)@ == accept(*cfg, old(self)@, message, n, now).state,
            r == accept(*cfg, old(self)@, message, n, now).result,
            events_view(final(events)@) == events_view(old(events)@) + accept(*cfg, old(self)@, message, n, now).events,
    {
        let ghost s0 = self@;
        let ghost o = accept(*cfg, s0, message, n, now);
        let mut merged = false;
        if cfg.coalesce_updates {
            match find_symbol(&self.coalesced, &message.symbol) {
                Some(i) => {
                    proof {
                        lemma_first_slot(s0.coalesced, message.symbol@, i as int);
                    }
                    self.stats.total_coalesced = self.stats.total_coalesced + 1;
                    merged = true;
                    let e = BackpressureEvent::Coalesce(CoalesceEvent {
                        channel: message.channel.clone(),
                        symbol: message.symbol.clone(),
                        old_sequence: self.coalesced[i].sequence,
                        new_sequence: message.sequence,
                        coalesced_count: self.stats.total_coalesced,
                        timestamp: now.wall_micros,
                    });
                    emit(events, e);
                    self.coalesced.set(i, message);
                },
                None => {
                    self.coalesced.push(message);
                },
            }
        } else {
            self.buffer.push_back(message);
        }
        self.recent_timestamps.push_back(now.since_start_micros);
        self.stats.total_accepted = self.stats.total_accepted + 1;
        let depth = self.buffer.len() + self.coalesced.len();
        self.stats.current_queue_depth = depth;
        if depth > self.stats.peak_queue_depth {
            self.stats.peak_queue_depth = depth;
        }
        assert(self@ == o.state);
        assert(events_view(events@) =~= events_view(old(events)@) + o.events);
        BackpressureResult {
            accepted: true,
            dropped: false,
            coalesced: merged,
            queue_depth: depth,
            window_messages: n,
            dropped_count: self.stats.total_dropped,
            coalesced_count: self.stats.total_coalesced,
        }
    }

    /// One message through the channel's flow control (see [`channel_step`]).
    fn step(
        &mut self,
        cfg: &BackpressureConfig,
        message: BufferedMessage,
        now: Moment,
        events: &mut Vec<BackpressureEvent>,
    ) -> (r: BackpressureResult)
        requires
            channel_has_room(old(self)@),
        ensures
            final(self)@ == channel_step(*cfg, old(self)@, message, now).state,
            r == channel_step(*cfg, old(self)@, message, now).result,
            events_view(final(events)@) == events_view(old(events)@) + channel_step(*cfg, old(self)@, message, now).events,
    {
        let ghost s0 = self@;
        let ghost ev0 = events_view(events@);
        let ghost o = channel_step(*cfg, s0, message, now);
        self.stats.total_received = self.stats.total_received + 1;
        prune_window(&mut self.recent_timestamps, now.since_start_micros, cfg.rate_window_ms);
        let n = self.recent_timestamps.len();
        self.stats.window_messages = n;
        if n > self.stats.peak_window_messages {
            self.stats.peak_window_messages = n;
        }
        let ghost s1 = self@;
        assert(s1 == arrived(*cfg, s0, now.since_start_micros));
        proof {
            lemma_pruned_len(s0.timestamps, now.since_start_micros, cfg.rate_window_ms);
        }
        let over = over_rate(cfg, n);
        if over {
            let e = BackpressureEvent::RateLimit(RateLimitEvent {
                channel: message.channel.clone(),
                window_messages: n,
                limit: cfg.max_messages_per_second,
                action_taken: action_string(cfg.drop_policy),
                timestamp: now.wall_micros,
            });
            emit(events, e);
            if cfg.drop_policy == DropPolicy::Latest {
                self.stats.total_dropped = self.stats.total_dropped + 1;
                let e = BackpressureEvent::Drop(DropEvent {
                    channel: message.channel.clone(),
                    symbol: message.symbol.clone(),
                    reason: DropReason::RateLimitExceeded { window_messages: n, limit: cfg.max_messages_per_second },
                    dropped_count: self.stats.total_dropped,
                    queue_depth: self.buffer.len(),
                    window_messages: n,
                    timestamp: now.wall_micros,
                });
                emit(events, e);
                assert(self@ == o.state);
                assert(events_view(events@) =~= ev0 + o.events);
                return BackpressureResult {
                    accepted: false,
                    dropped: true,
                    coalesced: false,
                    queue_depth: self.buffer.len(),
                    window_messages: n,
                    dropped_count: self.stats.total_dropped,
                    coalesced_count: self.stats.total_coalesced,
                };
            }
            self.drop_for_rate(cfg, n, now, events);
        }
        let ghost s2 = self@;
        let ghost ev2 = events_view(events@);
        if self.buffer.len() >= cfg.max_buffer_size && cfg.drop_policy == DropPolicy::Latest {
            self.stats.total_dropped = self.stats.total_dropped + 1;
            let e = BackpressureEvent::Drop(DropEvent {
                channel: message.channel.clone(),
                symbol: message.symbol.clone(),
                reason: DropReason::BufferFull { size: self.buffer.len(), max: cfg.max_buffer_size },
                dropped_count: self.stats.total_dropped,
                queue_depth: self.buffer.len(),
                window_messages: n,
                timestamp: now.wall_micros,
            });
            emit(events, e);
            assert(self@ == o.state);
            assert(events_view(events@) =~= ev0 + o.events);
            return BackpressureResult {
                accepted: false,
                dropped: true,
                coalesced: false,
                queue_depth: self.buffer.len(),
                window_messages: n,
                dropped_count: self.stats.total_dropped,
                coalesced_count: self.stats.total_coalesced,
            };
        }
        self.drop_for_space(cfg, n, now, events);
        let ghost ev3 = events_view(events@);
        let r = self.store(cfg, message, n, now, events);
        assert(events_view(events@) =~= ev0 + o.events);
        r
    }
}

impl ChannelState {
    fn reset_counters(&mut self)
        ensures
            final(self)@ == (ChannelView { stats: zero_stats(), ..old(self)@ }),
    {
        self.stats = BackpressureStats::default();
    }

    fn clear_queues(&mut self)
        ensures
            final(self)@ == (ChannelView { buffer: Seq::empty(), coalesced: Seq::empty(), ..old(self)@ }),
    {
        self.buffer.clear();
        self.coalesced.clear();
        assert(self@.buffer =~= Seq::empty());
        assert(self@.coalesced =~= Seq::empty());
    }

    /// Takes the next message: a coalesced one first when coalescing, else
    /// the front of the buffer.
    fn pop_next(&mut self, coalesce: bool) -> (r: Option<BufferedMessage>)
        ensures
            r == next_message(coalesce, old(self)@),
            final(self)@ == after_pop(coalesce, old(self)@),
    {
        if coalesce && self.coalesced.len() > 0 {
            let m = self.coalesced.remove(0);
            return Some(m);
        }
        self.buffer.pop_front()
    }
}

/// The message `pop` hands out: the first coalesced message when coalescing
/// and there is one, else the front of the buffer.
pub open spec fn next_message(coalesce: bool, s: ChannelView) -> Option<BufferedMessage> {
    if coalesce && s.coalesced.len() > 0 {
        Some(s.coalesced[0])
    } else if s.buffer.len() > 0 {
        Some(s.buffer[0])
    } else {
        None
    }
}

/// The channel once `pop` has taken its message.
pub open spec fn after_pop(coalesce: bool, s: ChannelView) -> ChannelView {
    if coalesce && s.coalesced.len() > 0 {
        ChannelView { coalesced: s.coalesced.remove(0), ..s }
    } else if s.buffer.len() > 0 {
        ChannelView { buffer: s.buffer.subrange(1, s.buffer.len() as int), ..s }
    } else {
        s
    }
}

/// The global counters after a message's result.
pub open spec fn global_after(g: BackpressureStats, r: BackpressureResult) -> BackpressureStats {
    BackpressureStats {
        total_received: (g.total_received + 1) as u64,
        total_accepted: if r.accepted { (g.total_accepted + 1) as u64 } else { g.total_accepted },
        total_coalesced: if r.accepted && r.coalesced { (g.total_coalesced + 1) as u64 } else { g.total_coalesced },
        ..g
    }
}

/// Whether the channel name is tracked.
pub open spec fn has_name(names: Seq<Seq<char>>, name: Seq<char>) -> bool {
    exists|i: int| 0 <= i < names.len() && #[trigger] names[i] == name
}

/// Whether `i` is the first slot with the name.
pub open spec fn is_first_name(names: Seq<Seq<char>>, name: Seq<char>, i: int) -> bool {
    &&& 0 <= i < names.len()
    &&& names[i] == name
    &&& forall|j: int| 0 <= j < i ==> #[trigger] names[j] != name
}

/// The slot of a tracked channel.
pub open spec fn name_slot(names: Seq<Seq<char>>, name: Seq<char>) -> int {
    choose|i: int| is_first_name(names, name, i)
}

proof fn lemma_first_name(names: Seq<Seq<char>>, name: Seq<char>, i: int)
    requires
        is_first_name(names, name, i),
    ensures
        name_slot(names, name) == i,
        has_name(names, name),
{
    let k = name_slot(names, name);
    assert(is_first_name(names, name, k));
    if k < i {
        assert(names[k] != name);
    } else if i < k {
        assert(names[i] != name);
    }
}

/// Total of a counter over channels.
pub open spec fn sum_dropped(states: Seq<ChannelView>) -> int
    decreases states.len(),
{
    if states.len() == 0 {
        0
    } else {
        sum_dropped(states.drop_last()) + states.last().stats.total_dropped
    }
}

/// Total queue depth over channels.
pub open spec fn sum_depth(states: Seq<ChannelView>) -> int
    decreases states.len(),
{
    if states.len() == 0 {
        0
    } else {
        sum_depth(states.drop_last()) + states.last().stats.current_queue_depth
    }
}

/// The highest per-window count over channels, starting from `start`.
pub open spec fn max_peak(start: usize, states: Seq<ChannelView>) -> usize
    decreases states.len(),
{
    if states.len() == 0 {
        start
    } else {
        let m = max_peak(start, states.drop_last());
        let p = states.last().stats.peak_window_messages;
        if p > m { p } else { m }
    }
}

/// The global counters with the channels' drops, peaks and depths folded in.
pub open spec fn aggregate(g: BackpressureStats, states: Seq<ChannelView>) -> BackpressureStats {
    BackpressureStats {
        total_dropped: (g.total_dropped + sum_dropped(states)) as u64,
        peak_window_messages: max_peak(g.peak_window_messages, states),
        current_queue_depth: (g.current_queue_depth + sum_depth(states)) as usize,
        ..g
    }
}

struct ChannelSlot {
    name: String,
    state: ChannelState,
}

/// Flow control for all channels of a connection.
pub struct BackpressureManager {
    config: BackpressureConfig,
    channels: Vec<ChannelSlot>,
    global: BackpressureStats,
    events: Vec<BackpressureEvent>,
    origin: Instant,
}

impl BackpressureManager {
    /// The configuration.
    pub closed spec fn cfg(&self) -> BackpressureConfig {
        self.config
    }

    /// The names of the channels seen so far, in the order they first appeared.
    pub closed spec fn names(&self) -> Seq<Seq<char>> {
        self.channels@.map_values(|c: ChannelSlot| c.name@)
    }

    /// The state of each channel, in the order of `names`.
    pub closed spec fn states(&self) -> Seq<ChannelView> {
        self.channels@.map_values(|c: ChannelSlot| c.state@)
    }

    /// The counters kept across channels.
    pub closed spec fn global(&self) -> BackpressureStats {
        self.global
    }

    /// The events not yet taken.
    pub closed spec fn queued(&self) -> Seq<EventView> {
        events_view(self.events@)
    }

    /// The state a message for `name` meets: the channel's, or an empty one.
    pub open spec fn state_for(&self, name: Seq<char>) -> ChannelView {
        if has_name(self.names(), name) {
            self.states()[name_slot(self.names(), name)]
        } else {
            empty_channel()
        }
    }

    /// Whether a message for `name` can be counted without overflow.
    pub open spec fn room_for(&self, name: Seq<char>) -> bool {
        &&& self.global().total_received < u64::MAX
        &&& self.global().total_accepted < u64::MAX
        &&& self.global().total_coalesced < u64::MAX
        &&& channel_has_room(self.state_for(name))
    }

    /// How the manager changes when `message` is processed at `now` with answer `r`.
    pub open spec fn processed(
        old_m: BackpressureManager,
        new_m: BackpressureManager,
        message: BufferedMessage,
        now: Moment,
        r: BackpressureResult,
    ) -> bool {
        let ch = message.channel@;
        let found = has_name(old_m.names(), ch);
        let o = channel_step(old_m.cfg(), old_m.state_for(ch), message, now);
        &&& r == o.result
        &&& new_m.cfg() == old_m.cfg()
        &&& new_m.names() == if found { old_m.names() } else { old_m.names().push(ch) }
        &&& new_m.states() == if found {
            old_m.states().update(name_slot(old_m.names(), ch), o.state)
        } else {
            old_m.states().push(o.state)
        }
        &&& new_m.global() == global_after(old_m.global(), r)
        &&& new_m.queued() == old_m.queued() + o.events
    }

    /// A manager with the default configuration.
    pub fn new() -> (m: Self)
        ensures
            m.cfg() == default_backpressure_config(),
            m.names().len() == 0,
            m.states().len() == 0,
            m.global() == zero_stats(),
            m.queued().len() == 0,
    {
        Self::with_config(BackpressureConfig::default())
    }

    /// A manager with the given configuration.
    pub fn with_config(config: BackpressureConfig) -> (m: Self)
        ensures
            m.cfg() == config,
            m.names().len() == 0,
            m.states().len() == 0,
            m.global() == zero_stats(),
            m.queued().len() == 0,
    {
        let m = BackpressureManager {
            config,
            channels: Vec::new(),
            global: BackpressureStats::default(),
            events: Vec::new(),
            origin: instant_now(),
        };
        assert(m.names().len() == 0);
        m
    }

    fn find(&self, name: &String) -> (r: Option<usize>)
        ensures
            match r {
                Some(i) => is_first_name(self.names(), name@, i as int),
                None => !has_name(self.names(), name@),
            },
    {
        let mut i: usize = 0;
        while i < self.channels.len()
            invariant
                i <= self.channels@.len(),
                forall|j: int| 0 <= j < i ==> #[trigger] self.names()[j] != name@,
            decreases self.channels@.len() - i,
        {
            if self.channels[i].name == *name {
                return Some(i);
            }
            i = i + 1;
        }
        None
    }

    /// Whether a message for `channel` can be processed without a counter overflowing.
    pub fn can_process(&self, channel: &str) -> (b: bool)
        ensures
            b == self.room_for(channel@),
    {
        let key = channel.to_string();
        if self.global.total_received == u64::MAX || self.global.total_accepted == u64::MAX
            || self.global.total_coalesced == u64::MAX {
            return false;
        }
        match self.find(&key) {
            Some(i) => {
                proof {
                    lemma_first_name(self.names(), key@, i as int);
                }
                let st = &self.channels[i].state;
                st.stats.total_received < u64::MAX && st.stats.total_accepted < u64::MAX
                    && st.stats.total_coalesced < u64::MAX && st.stats.total_dropped <= u64::MAX - 2
                    && st.coalesced.len() < usize::MAX - 1
                    && st.buffer.len() < usize::MAX - 1 - st.coalesced.len()
                    && st.recent_timestamps.len() < usize::MAX - 1
            },
            None => true,
        }
    }

    /// Processes a message at the given moment (see [`channel_step`]).
    pub fn process_at(&mut self, message: BufferedMessage, now: Moment) -> (r: BackpressureResult)
        requires
            old(self).room_for(message.channel@),
        ensures
            Self::processed(*old(self), *final(self), message, now, r),
    {
        let ghost m0 = *self;
        let ghost ch = message.channel@;
        let i = match self.find(&message.channel) {
            Some(i) => {
                proof {
                    lemma_first_name(self.names(), ch, i as int);
                }
                i
            },
            None => {
                let slot = ChannelSlot { name: message.channel.clone(), state: ChannelState::new() };
                self.channels.push(slot);
                assert(self.names() =~= m0.names().push(ch));
                assert(self.states() =~= m0.states().push(empty_channel()));
                self.channels.len() - 1
            },
        };
        let ghost mid = *self;
        assert(mid.states()[i as int] == m0.state_for(ch));
        self.global.total_received = self.global.total_received + 1;
        let r = self.channels[i].state.step(&self.config, message, now, &mut self.events);
        if r.accepted {
            self.global.total_accepted = self.global.total_accepted + 1;
            if r.coalesced {
                self.global.total_coalesced = self.global.total_coalesced + 1;
            }
        }
        assert(self.names() =~= mid.names());
        assert(self.states() =~= mid.states().update(i as int, channel_step(m0.cfg(), m0.state_for(ch), message, now).state));
        proof {
            if has_name(m0.names(), ch) {
                assert(mid.states() == m0.states());
            } else {
                assert(m0.states().push(empty_channel()).update(i as int, channel_step(m0.cfg(), m0.state_for(ch), message, now).state)
                    =~= m0.states().push(channel_step(m0.cfg(), m0.state_for(ch), message, now).state));
            }
        }
        r
    }

    /// Processes a message now: reads the clocks and applies [`Self::process_at`].
    pub fn process(&mut self, message: BufferedMessage) -> (r: BackpressureResult)
        requires
            old(self).room_for(message.channel@),
        ensures
            exists|now: Moment| Self::processed(*old(self), *final(self), message, now, r),
    {
        let start = instant_now();
        let since_start_micros = elapsed_micros(&self.origin);
        let wall_micros = utc_now_micros();
        let pick = elapsed_nanos(&start);
        let now = Moment { since_start_micros, wall_micros, pick };
        self.process_at(message, now)
    }

    /// Takes the next message of a channel: a coalesced one first when
    /// coalescing, else the front of its buffer; `None` for an unknown channel.
    pub fn pop(&mut self, channel: &str) -> (r: Option<BufferedMessage>)
        ensures
            final(self).cfg() == old(self).cfg(),
            final(self).names() == old(self).names(),
            final(self).global() == old(self).global(),
            final(self).queued() == old(self).queued(),
            has_name(old(self).names(), channel@) ==> {
                let i = name_slot(old(self).names(), channel@);
                &&& r == next_message(old(self).cfg().coalesce_updates, old(self).states()[i])
                &&& final(self).states() == old(self).states().update(
                    i,
                    after_pop(old(self).cfg().coalesce_updates, old(self).states()[i]),
                )
            },
            !has_name(old(self).names(), channel@) ==> r is None && final(self).states() == old(self).states(),
    {
        let key = channel.to_string();
        let ghost m0 = *self;
        match self.find(&key) {
            Some(i) => {
                proof {
                    lemma_first_name(self.names(), key@, i as int);
                }
                let coalesce = self.config.coalesce_updates;
                let r = self.channels[i].state.pop_next(coalesce);
                assert(self.names() =~= m0.names());
                assert(self.states() =~= m0.states().update(i as int, after_pop(coalesce, m0.states()[i as int])));
                r
            },
            None => None,
        }
    }

    /// The statistics of a channel.
    pub fn get_stats(&self, channel: &str) -> (r: Option<BackpressureStats>)
        ensures
            has_name(self.names(), channel@) ==> r == Some(self.states()[name_slot(self.names(), channel@)].stats),
            !has_name(self.names(), channel@) ==> r is None,
    {
        let key = channel.to_string();
        match self.find(&key) {
            Some(i) => {
                proof {
                    lemma_first_name(self.names(), key@, i as int);
                }
                Some(self.channels[i].state.stats)
            },
            None => None,
        }
    }

    /// Whether the totals over all channels fit their counters.
    pub open spec fn totals_fit(&self) -> bool {
        &&& self.global().total_dropped + sum_dropped(self.states()) <= u64::MAX
        &&& self.global().current_queue_depth + sum_depth(self.states()) <= usize::MAX
    }

    /// The global counters with the channels' drops and queue depths added
    /// and the highest window count taken.
    pub fn global_stats(&self) -> (r: BackpressureStats)
        requires
            self.totals_fit(),
        ensures
            r == aggregate(self.global(), self.states()),
    {
        let mut stats = self.global;
        let ghost states = self.states();
        let mut k: usize = 0;
        proof {
            lemma_sums_nonneg(states);
        }
        while k < self.channels.len()
            invariant
                k <= states.len(),
                states == self.states(),
                self.totals_fit(),
                stats == aggregate(self.global(), states.subrange(0, k as int)),
            decreases states.len() - k,
        {
            let ghost pre = states.subrange(0, k as int);
            let ghost next = states.subrange(0, k + 1);
            assert(next.drop_last() =~= pre);
            proof {
                lemma_sum_prefix(states, k + 1);
                lemma_sum_prefix(states, k as int);
            }
            let st = &self.channels[k].state;
            assert(st@ == states[k as int]);
            assert(next.last() == states[k as int]);
            assert(sum_dropped(next) == sum_dropped(pre) + states[k as int].stats.total_dropped);
            assert(sum_depth(next) == sum_depth(pre) + states[k as int].stats.current_queue_depth);
            stats.total_dropped = stats.total_dropped + st.stats.total_dropped;
            if st.stats.peak_window_messages > stats.peak_window_messages {
                stats.peak_window_messages = st.stats.peak_window_messages;
            }
            stats.current_queue_depth = stats.current_queue_depth + st.stats.current_queue_depth;
            k = k + 1;
        }
        assert(states.subrange(0, states.len() as int) =~= states);
        stats
    }

    /// The configuration.
    pub fn config(&self) -> (c: &BackpressureConfig)
        ensures
            *c == self.cfg(),
    {
        &self.config
    }

    /// Sets every counter, global and per channel, back to zero.
    pub fn reset_stats(&mut self)
        ensures
            final(self).cfg() == old(self).cfg(),
            final(self).names() == old(self).names(),
            final(self).global() == zero_stats(),
            final(self).queued() == old(self).queued(),
            final(self).states().len() == old(self).states().len(),
            forall|i: int| 0 <= i < old(self).states().len() ==> #[trigger] final(self).states()[i] == (
            ChannelView { stats: zero_stats(), ..old(self).states()[i] }),
    {
        self.global = BackpressureStats::default();
        let ghost m0 = *self;
        let mut k: usize = 0;
        while k < self.channels.len()
            invariant
                k <= self.channels@.len(),
                self.channels@.len() == m0.channels@.len(),
                self.config == m0.config,
                self.global == m0.global,
                self.events == m0.events,
                forall|j: int| 0 <= j < self.channels@.len() ==> #[trigger] self.channels@[j].name@ == m0.channels@[j].name@,
                forall|j: int| 0 <= j < k ==> #[trigger] self.channels@[j].state@ == (ChannelView { stats: zero_stats(), ..m0.channels@[j].state@ }),
                forall|j: int| k <= j < self.channels@.len() ==> #[trigger] self.channels@[j].state@ == m0.channels@[j].state@,
            decreases self.channels@.len() - k,
        {
            let ghost before = self.channels@;
            self.channels[k].state.reset_counters();
            assert(forall|j: int| 0 <= j < self.channels@.len() && j != k ==> self.channels@[j] == before[j]);
            k = k + 1;
        }
        assert(self.names() =~= old(self).names());
    }

    /// Empties every buffer and coalesced set; the rate windows and counters stay.
    pub fn clear(&mut self)
        ensures
            final(self).cfg() == old(self).cfg(),
            final(self).names() == old(self).names(),
            final(self).global() == old(self).global(),
            final(self).queued() == old(self).queued(),
            final(self).states().len() == old(self).states().len(),
            forall|i: int| 0 <= i < old(self).states().len() ==> #[trigger] final(self).states()[i] == (
            ChannelView { buffer: Seq::empty(), coalesced: Seq::empty(), ..old(self).states()[i] }),
    {
        let ghost m0 = *self;
        let mut k: usize = 0;
        while k < self.channels.len()
            invariant
                k <= self.channels@.len(),
                self.channels@.len() == m0.channels@.len(),
                self.config == m0.config,
                self.global == m0.global,
                self.events == m0.events,
                forall|j: int| 0 <= j < self.channels@.len() ==> #[trigger] self.channels@[j].name@ == m0.channels@[j].name@,
                forall|j: int| 0 <= j < k ==> #[trigger] self.channels@[j].state@ == (ChannelView {
                    buffer: Seq::empty(),
                    coalesced: Seq::empty(),
                    ..m0.channels@[j].state@
                }),
                forall|j: int| k <= j < self.channels@.len() ==> #[trigger] self.channels@[j].state@ == m0.channels@[j].state@,
            decreases self.channels@.len() - k,
        {
            let ghost before = self.channels@;
            self.channels[k].state.clear_queues();
            assert(forall|j: int| 0 <= j < self.channels@.len() && j != k ==> self.channels@[j] == before[j]);
            k = k + 1;
        }
        assert(self.names() =~= old(self).names());
    }

    /// Hands out the events emitted since the last call, oldest first.
    pub fn take_events(&mut self) -> (r: Vec<BackpressureEvent>)
        ensures
            events_view(r@) == old(self).queued(),
            final(self).queued().len() == 0,
            final(self).cfg() == old(self).cfg(),
            final(self).names() == old(self).names(),
            final(self).states() == old(self).states(),
            final(self).global() == old(self).global(),
    {
        let mut out: Vec<BackpressureEvent> = Vec::new();
        std::mem::swap(&mut out, &mut self.events);
        out
    }
}

impl Default for BackpressureManager {
    fn default() -> (m: Self)
        ensures
            m.cfg() == default_backpressure_config(),
            m.names().len() == 0,
            m.global() == zero_stats(),
    {
        Self::new()
    }
}

/// The channel sums are never negative.
proof fn lemma_sums_nonneg(states: Seq<ChannelView>)
    ensures
        sum_dropped(states) >= 0,
        sum_depth(states) >= 0,
    decreases states.len(),
{
    if states.len() > 0 {
        lemma_sums_nonneg(states.drop_last());
    }
}

/// A prefix sums to no more than the whole.
proof fn lemma_sum_prefix(states: Seq<ChannelView>, k: int)
    requires
        0 <= k <= states.len(),
    ensures
        sum_dropped(states.subrange(0, k)) <= sum_dropped(states),
        sum_depth(states.subrange(0, k)) <= sum_depth(states),
        sum_dropped(states.subrange(0, k)) >= 0,
        sum_depth(states.subrange(0, k)) >= 0,
    decreases states.len(),
{
    lemma_sums_nonneg(states.subrange(0, k));
    if k < states.len() {
        assert(states.drop_last().subrange(0, k) =~= states.subrange(0, k));
        lemma_sum_prefix(states.drop_last(), k);
        lemma_sums_nonneg(states);
    } else {
        assert(states.subrange(0, k) =~= states);
    }
}

// ---------------------------------------------------------------------------
// Laws of the flow control
// ---------------------------------------------------------------------------

/// Every message is counted once as received, and is either accepted or
/// dropped, never both; the accepted count grows exactly when it is accepted.
pub proof fn law_each_message_accounted(cfg: BackpressureConfig, s: ChannelView, msg: BufferedMessage, now: Moment)
    requires
        channel_has_room(s),
    ensures
        ({
            let o = channel_step(cfg, s, msg, now);
            &&& o.state.stats.total_received == s.stats.total_received + 1
            &&& o.result.accepted != o.result.dropped
            &&& o.state.stats.total_accepted == s.stats.total_accepted + if o.result.accepted { 1int } else { 0int }
        }),
{
}

/// The `Block` policy never drops: every message is accepted and the drop
/// count stays as it was.
pub proof fn law_block_never_drops(cfg: BackpressureConfig, s: ChannelView, msg: BufferedMessage, now: Moment)
    requires
        cfg.drop_policy == DropPolicy::Block,
    ensures
        channel_step(cfg, s, msg, now).result.accepted,
        channel_step(cfg, s, msg, now).state.stats.total_dropped == s.stats.total_dropped,
{
}

/// The `Latest` policy never drops a buffered message: the buffer keeps what
/// it held, and gains the new message at most.
pub proof fn law_latest_keeps_buffer(cfg: BackpressureConfig, s: ChannelView, msg: BufferedMessage, now: Moment)
    requires
        cfg.drop_policy == DropPolicy::Latest,
    ensures
        ({
            let b = channel_step(cfg, s, msg, now).state.buffer;
            b == s.buffer || b == s.buffer.push(msg)
        }),
{
}

/// The `Oldest` policy drops from the front: without coalescing the buffer
/// afterwards is what remains of the old buffer with the new message appended,
/// after dropping a prefix.
pub proof fn law_oldest_drops_front(cfg: BackpressureConfig, s: ChannelView, msg: BufferedMessage, now: Moment)
    requires
        cfg.drop_policy == DropPolicy::Oldest,
        !cfg.coalesce_updates,
    ensures
        ({
            let b = channel_step(cfg, s, msg, now).state.buffer;
            let all = s.buffer.push(msg);
            exists|k: int| 0 <= k <= all.len() && b == #[trigger] all.subrange(k, all.len() as int)
        }),
{
    let o = channel_step(cfg, s, msg, now);
    let all = s.buffer.push(msg);
    let s1 = arrived(cfg, s, now.since_start_micros);
    let n = s1.stats.window_messages;
    let over = rate_exceeded(cfg, s1.timestamps.len());
    let s2 = if over { rate_drop(cfg, s1, n, now).0 } else { s1 };
    let k1: int = if over && s1.buffer.len() > 0 { 1 } else { 0 };
    assert(s2.buffer =~= s.buffer.subrange(k1, s.buffer.len() as int));
    let s3 = space_drop(cfg, s2, n, now).0;
    let k2: int = if s2.buffer.len() >= cfg.max_buffer_size && s2.buffer.len() > 0 { k1 + 1 } else { k1 };
    assert(s3.buffer =~= s.buffer.subrange(k2, s.buffer.len() as int));
    assert(o.state.buffer =~= all.subrange(k2, all.len() as int));
}

/// Under `Oldest` or `Latest` without coalescing, a buffer within its bound
/// stays within it.
pub proof fn law_buffer_bounded(cfg: BackpressureConfig, s: ChannelView, msg: BufferedMessage, now: Moment)
    requires
        cfg.drop_policy == DropPolicy::Oldest || cfg.drop_policy == DropPolicy::Latest,
        !cfg.coalesce_updates,
        cfg.max_buffer_size > 0,
        s.buffer.len() <= cfg.max_buffer_size,
    ensures
        channel_step(cfg, s, msg, now).state.buffer.len() <= cfg.max_buffer_size,
{
}

/// Whether no two coalesced messages share a symbol.
pub open spec fn symbols_unique(c: Seq<BufferedMessage>) -> bool {
    forall|i: int, j: int| 0 <= i < j < c.len() ==> #[trigger] c[i].symbol@ != #[trigger] c[j].symbol@
}

/// Coalescing keeps one message per symbol, and the one kept for the new
/// message's symbol is the new message.
pub proof fn law_coalesce_keeps_latest(cfg: BackpressureConfig, s: ChannelView, msg: BufferedMessage, now: Moment)
    requires
        cfg.coalesce_updates,
        symbols_unique(s.coalesced),
        channel_step(cfg, s, msg, now).result.accepted,
    ensures
        ({
            let c = channel_step(cfg, s, msg, now).state.coalesced;
            &&& symbols_unique(c)
            &&& exists|i: int| 0 <= i < c.len() && c[i] == msg
        }),
{
    let c0 = s.coalesced;
    let c = channel_step(cfg, s, msg, now).state.coalesced;
    if has_symbol(c0, msg.symbol@) {
        let i = symbol_slot(c0, msg.symbol@);
        assert(is_first_slot(c0, msg.symbol@, i)) by {
            let w = choose|w: int| 0 <= w < c0.len() && #[trigger] c0[w].symbol@ == msg.symbol@;
            assert(exists|k: int| is_first_slot(c0, msg.symbol@, k)) by {
                lemma_first_exists(c0, msg.symbol@, w);
            }
        }
        assert(c =~= c0.update(i, msg));
        assert(c[i] == msg);
    } else {
        assert(c =~= c0.push(msg));
        assert(c[c0.len() as int] == msg);
    }
}

/// Some slot is the first one holding a symbol that occurs.
proof fn lemma_first_exists(c: Seq<BufferedMessage>, sym: Seq<char>, w: int)
    requires
        0 <= w < c.len(),
        c[w].symbol@ == sym,
    ensures
        exists|k: int| is_first_slot(c, sym, k),
    decreases w,
{
    if exists|j: int| 0 <= j < w && #[trigger] c[j].symbol@ == sym {
        let j = choose|j: int| 0 <= j < w && #[trigger] c[j].symbol@ == sym;
        lemma_first_exists(c, sym, j);
    } else {
        assert(is_first_slot(c, sym, w));
    }
}

/// A name that occurs has a first slot, and `name_slot` gives it.
pub proof fn lemma_name_slot_first(names: Seq<Seq<char>>, name: Seq<char>)
    requires
        has_name(names, name),
    ensures
        is_first_name(names, name, name_slot(names, name)),
    decreases names.len(),
{
    let init = names.drop_last();
    if has_name(init, name) {
        lemma_name_slot_first(init, name);
        let k = name_slot(init, name);
        assert(init[k] == names[k]);
        assert forall|j: int| 0 <= j < k implies #[trigger] names[j] != name by {
            assert(init[j] == names[j]);
        }
        assert(is_first_name(names, name, k));
    } else {
        let k = names.len() - 1;
        assert forall|j: int| 0 <= j < k implies #[trigger] names[j] != name by {
            assert(init[j] == names[j]);
        }
        if names[k] != name {
            let i = choose|i: int| 0 <= i < names.len() && #[trigger] names[i] == name;
            assert(init[i] == names[i]);
        }
        assert(is_first_name(names, name, k));
    }
}

impl BackpressureManager {
    /// Every channel name has its state: the two sequences have one length.
    pub proof fn lemma_names_match_states(&self)
        ensures
            self.names().len() == self.states().len(),
    {
    }
}

/// Processing a message, as a whole manager (the statistics before are the
/// channel's, or the default zeros for a channel not seen yet; afterwards the
/// channel is tracked): the message is accepted or dropped, never both; a coalesced message is accepted, and only with
/// coalescing on; the channel counts one more message received and one more
/// accepted when it was; the drop count reported is the channel's, and it
/// never goes down.
pub proof fn law_process_accounts(
    old_m: BackpressureManager,
    new_m: BackpressureManager,
    message: BufferedMessage,
    now: Moment,
    r: BackpressureResult,
)
    requires
        old_m.room_for(message.channel@),
        BackpressureManager::processed(old_m, new_m, message, now, r),
    ensures
        ({
            let s0 = old_m.state_for(message.channel@).stats;
            let s1 = new_m.state_for(message.channel@).stats;
            &&& r.accepted == !r.dropped
            &&& r.coalesced ==> r.accepted && old_m.cfg().coalesce_updates
            &&& s1.total_received == s0.total_received + 1
            &&& s1.total_accepted == s0.total_accepted + if r.accepted { 1int } else { 0int }
            &&& r.dropped_count == s1.total_dropped
            &&& s1.total_dropped >= s0.total_dropped
            &&& has_name(new_m.names(), message.channel@)
            &&& !has_name(old_m.names(), message.channel@) ==> s0 == zero_stats()
        }),
{
    let ch = message.channel@;
    let o = channel_step(old_m.cfg(), old_m.state_for(ch), message, now);
    law_each_message_accounted(old_m.cfg(), old_m.state_for(ch), message, now);
    old_m.lemma_names_match_states();
    if has_name(old_m.names(), ch) {
        lemma_name_slot_first(old_m.names(), ch);
        assert(new_m.state_for(ch) == o.state);
    } else {
        let n = old_m.names().len() as int;
        assert forall|j: int| 0 <= j < n implies #[trigger] new_m.names()[j] != ch by {
            assert(new_m.names()[j] == old_m.names()[j]);
        }
        assert(new_m.names()[n] == ch);
        lemma_first_name(new_m.names(), ch, n);
        assert(new_m.state_for(ch) == o.state);
    }
}

} // verus!
