//! Deterministic message sequencing: per-channel sequence validation, gap
//! detection, buffering of early messages and resync decisions.

use crate::clock::utc_now_micros;
use std::collections::HashMap;
use vstd::prelude::*;

verus! {

broadcast use vstd::std_specs::hash::group_hash_axioms;

/// Sequence tracking state for a single channel.
#[derive(Debug, Clone, Copy)]
pub struct SequenceState {
    /// Last successfully processed sequence number
    pub last_sequence: u64,
    /// Whether a gap was detected
    pub gap_detected: bool,
    /// Whether a resync was triggered
    pub resync_triggered: bool,
    /// Number of gaps detected since start
    pub total_gaps: u64,
    /// Number of messages processed
    pub messages_processed: u64,
    /// Last update time, microseconds since the Unix epoch (UTC)
    pub last_update: i64,
}

/// A message waiting to be processed in order.
#[derive(Debug)]
pub struct PendingMessage {
    pub sequence: u64,
    pub data: String,
    pub received_at: i64,
}

impl SequenceState {
    /// A fresh channel state: nothing processed yet.
    pub fn new() -> (s: Self)
        ensures
            s.last_sequence == 0,
            !s.gap_detected,
            !s.resync_triggered,
            s.total_gaps == 0,
            s.messages_processed == 0,
    {
        SequenceState {
            last_sequence: 0,
            gap_detected: false,
            resync_triggered: false,
            total_gaps: 0,
            messages_processed: 0,
            last_update: utc_now_micros(),
        }
    }
}

impl Default for SequenceState {
    fn default() -> (s: Self)
        ensures
            s.last_sequence == 0,
            !s.gap_detected,
            !s.resync_triggered,
            s.total_gaps == 0,
            s.messages_processed == 0,
    {
        SequenceState::new()
    }
}

/// Result of sequence validation.
#[derive(Debug, Clone, Copy)]
pub struct SequenceResult {
    /// Whether the message is in order
    pub in_order: bool,
    /// The sequence number of this message
    pub sequence: u64,
    /// Expected sequence number
    pub expected: u64,
    /// Gap size (0 if no gap)
    pub gap_size: u64,
    /// Whether this triggered a resync
    pub resync_triggered: bool,
    /// Current state after processing
    pub state: SequenceState,
}

/// Gap detection event.
#[derive(Debug)]
pub struct GapEvent {
    pub channel: String,
    pub expected_sequence: u64,
    pub received_sequence: u64,
    pub gap_size: u64,
    pub timestamp: i64,
}

/// Resync event.
#[derive(Debug)]
pub struct ResyncEvent {
    pub channel: String,
    pub last_good_sequence: u64,
    pub reason: ResyncReason,
    pub timestamp: i64,
}

/// Reason for resync.
#[derive(Debug, Clone, Copy, PartialEq, Eq)]
pub enum ResyncReason {
    GapTooLarge { gap_size: u64 },
    TooManyPending { count: usize },
    Timeout { seconds: u64 },
    ManualRequest,
    ConnectionReset,
}

/// An event the manager emits for its listeners, in the order it happened.
#[derive(Debug)]
pub enum SequenceEvent {
    Gap(GapEvent),
    Resync(ResyncEvent),
}

impl Clone for GapEvent {
    fn clone(&self) -> (c: Self)
        ensures
            c == *self,
    {
        GapEvent {
            channel: self.channel.clone(),
            expected_sequence: self.expected_sequence,
            received_sequence: self.received_sequence,
            gap_size: self.gap_size,
            timestamp: self.timestamp,
        }
    }
}

impl Clone for ResyncEvent {
    fn clone(&self) -> (c: Self)
        ensures
            c == *self,
    {
        ResyncEvent {
            channel: self.channel.clone(),
            last_good_sequence: self.last_good_sequence,
            reason: self.reason,
            timestamp: self.timestamp,
        }
    }
}

impl Clone for SequenceEvent {
    fn clone(&self) -> (c: Self)
        ensures
            c == *self,
    {
        match self {
            SequenceEvent::Gap(e) => SequenceEvent::Gap(e.clone()),
            SequenceEvent::Resync(e) => SequenceEvent::Resync(e.clone()),
        }
    }
}

/// Configuration for the sequence manager.
#[derive(Debug, Clone, Copy)]
pub struct SequenceConfig {
    /// Maximum gap size before triggering resync
    pub max_gap_size: u64,
    /// Maximum pending messages before triggering resync
    pub max_pending_messages: usize,
    /// Timeout for pending messages (seconds)
    pub pending_timeout_secs: u64,
    /// Whether to auto-resync on large gaps
    pub auto_resync: bool,
}

impl Default for SequenceConfig {
    fn default() -> (c: Self)
        ensures
            c.max_gap_size == 100,
            c.max_pending_messages == 1000,
            c.pending_timeout_secs == 30,
            c.auto_resync,
    {
        SequenceConfig {
            max_gap_size: 100,
            max_pending_messages: 1000,
            pending_timeout_secs: 30,
            auto_resync: true,
        }
    }
}

/// The abstract state of one channel: its counters and the sequence numbers held back.
#[verifier::ext_equal]
pub struct ChannelModel {
    pub last: u64,
    pub gap_detected: bool,
    pub resync_triggered: bool,
    pub total_gaps: u64,
    pub processed: u64,
    pub pending: Set<u64>,
}

/// The model of a channel never seen before.
pub open spec fn fresh_model() -> ChannelModel {
    ChannelModel {
        last: 0,
        gap_detected: false,
        resync_triggered: false,
        total_gaps: 0,
        processed: 0,
        pending: Set::empty(),
    }
}

/// Whether the counters of `s` are those of `m`.
pub open spec fn state_matches(s: SequenceState, m: ChannelModel) -> bool {
    &&& s.last_sequence == m.last
    &&& s.gap_detected == m.gap_detected
    &&& s.resync_triggered == m.resync_triggered
    &&& s.total_gaps == m.total_gaps
    &&& s.messages_processed == m.processed
}

/// The last sequence number reached from `last` by following consecutive held-back numbers.
pub open spec fn chain_end(last: u64, pending: Set<u64>) -> u64
    decreases u64::MAX - last,
{
    if last < u64::MAX && pending.contains((last + 1) as u64) {
        chain_end((last + 1) as u64, pending)
    } else {
        last
    }
}

/// Following the chain never goes backwards.
pub proof fn lemma_chain_end_ge(last: u64, pending: Set<u64>)
    ensures
        chain_end(last, pending) >= last,
    decreases u64::MAX - last,
{
    if last < u64::MAX && pending.contains((last + 1) as u64) {
        lemma_chain_end_ge((last + 1) as u64, pending);
    }
}

/// With nothing held back the chain stops where it starts.
pub proof fn lemma_chain_end_fresh(last: u64)
    ensures
        chain_end(last, Set::<u64>::empty()) == last,
{
}

/// The sequence numbers strictly above `lo` and at most `hi`.
pub open spec fn seq_range(lo: u64, hi: u64) -> Set<u64> {
    Set::new(|k: u64| lo < k <= hi)
}

/// Whether validating `seq` on a channel in state `m` keeps every counter within `u64`.
pub open spec fn has_room(m: ChannelModel, seq: u64) -> bool {
    &&& m.last < u64::MAX
    &&& seq < u64::MAX
    &&& m.total_gaps < u64::MAX
    &&& m.processed + 1 + (chain_end(seq, m.pending) - seq) <= u64::MAX
}

/// What the sequence number `seq` is expected to be on a channel in state `m`.
pub open spec fn expected_of(m: ChannelModel) -> u64 {
    (m.last + 1) as u64
}

/// Whether `seq` is accepted in order: the first message of a channel or the next one.
pub open spec fn accepted_in_order(m: ChannelModel, seq: u64) -> bool {
    m.last == 0 || seq == expected_of(m)
}

/// The channel model after validating `seq`.
pub open spec fn step(m: ChannelModel, seq: u64, cfg: SequenceConfig) -> ChannelModel {
    if accepted_in_order(m, seq) {
        let end = chain_end(seq, m.pending);
        ChannelModel {
            last: end,
            gap_detected: false,
            processed: (m.processed + 1 + (end - seq)) as u64,
            pending: m.pending.difference(seq_range(seq, end)),
            ..m
        }
    } else if seq > expected_of(m) {
        let gap = (seq - expected_of(m)) as u64;
        let held = m.pending.insert(seq);
        if (gap > cfg.max_gap_size && cfg.auto_resync) || (held.len() > cfg.max_pending_messages
            && cfg.auto_resync) {
            ChannelModel {
                gap_detected: true,
                resync_triggered: true,
                total_gaps: (m.total_gaps + 1) as u64,
                pending: Set::empty(),
                ..m
            }
        } else {
            ChannelModel {
                gap_detected: true,
                total_gaps: (m.total_gaps + 1) as u64,
                pending: held,
                ..m
            }
        }
    } else {
        m
    }
}

/// Whether validating `seq` on a channel in state `m` triggers a resync.
pub open spec fn triggers_resync(m: ChannelModel, seq: u64, cfg: SequenceConfig) -> bool {
    !accepted_in_order(m, seq) && seq > expected_of(m) && (((seq - expected_of(m))
        > cfg.max_gap_size && cfg.auto_resync) || (m.pending.insert(seq).len()
        > cfg.max_pending_messages && cfg.auto_resync))
}

/// Whether `e` reports a gap on `channel` between `expected` and `received`.
pub open spec fn is_gap_event(e: SequenceEvent, channel: Seq<char>, expected: u64, received: u64) -> bool {
    match e {
        SequenceEvent::Gap(g) => g.channel@ == channel && g.expected_sequence == expected
            && g.received_sequence == received && g.gap_size == received - expected,
        _ => false,
    }
}

/// Whether `e` reports a resync of `channel` after `last_good`, for `reason`.
pub open spec fn is_resync_event(
    e: SequenceEvent,
    channel: Seq<char>,
    last_good: u64,
    reason: ResyncReason,
) -> bool {
    match e {
        SequenceEvent::Resync(r) => r.channel@ == channel && r.last_good_sequence == last_good
            && r.reason == reason,
        _ => false,
    }
}

/// The reason given for the resync that validating `seq` triggers.
pub open spec fn resync_reason(m: ChannelModel, seq: u64, cfg: SequenceConfig) -> ResyncReason {
    let gap = (seq - expected_of(m)) as u64;
    if gap > cfg.max_gap_size && cfg.auto_resync {
        ResyncReason::GapTooLarge { gap_size: gap }
    } else {
        ResyncReason::TooManyPending { count: m.pending.insert(seq).len() as usize }
    }
}

/// The events queued by validating `seq` on a channel in state `m`, appended to `before`.
pub open spec fn events_after(
    before: Seq<SequenceEvent>,
    after: Seq<SequenceEvent>,
    channel: Seq<char>,
    m: ChannelModel,
    seq: u64,
    cfg: SequenceConfig,
) -> bool {
    if !accepted_in_order(m, seq) && seq > expected_of(m) {
        &&& after.len() == before.len() + if triggers_resync(m, seq, cfg) {
            2int
        } else {
            1int
        }
        &&& after.subrange(0, before.len() as int) == before
        &&& is_gap_event(after[before.len() as int], channel, expected_of(m), seq)
        &&& triggers_resync(m, seq, cfg) ==> is_resync_event(
            after[before.len() + 1int],
            channel,
            m.last,
            resync_reason(m, seq, cfg),
        )
    } else {
        after == before
    }
}

/// Per-channel storage: the channel's counters and its held-back messages.
struct ChannelEntry {
    name: String,
    state: SequenceState,
    pending: HashMap<u64, PendingMessage>,
}

/// Sequence manager for deterministic message handling.
///
/// Gap and resync events are queued in the order they happen; `take_events`
/// hands them to whoever notifies listeners.
pub struct SequenceManager {
    channels: Vec<ChannelEntry>,
    config: SequenceConfig,
    events: Vec<SequenceEvent>,
}

/// The model of the channel stored in `e`.
spec fn entry_model(e: ChannelEntry) -> ChannelModel {
    ChannelModel {
        last: e.state.last_sequence,
        gap_detected: e.state.gap_detected,
        resync_triggered: e.state.resync_triggered,
        total_gaps: e.state.total_gaps,
        processed: e.state.messages_processed,
        pending: e.pending@.dom(),
    }
}

impl SequenceManager {
    /// Whether the manager tracks `name`.
    pub closed spec fn tracks(&self, name: Seq<char>) -> bool {
        exists|i: int| 0 <= i < self.channels@.len() && self.channels@[i].name@ == name
    }

    /// Where `name` is stored.
    closed spec fn slot(&self, name: Seq<char>) -> int {
        choose|i: int| 0 <= i < self.channels@.len() && self.channels@[i].name@ == name
    }

    /// The model of channel `name`; a channel never seen is fresh.
    pub closed spec fn model(&self, name: Seq<char>) -> ChannelModel {
        if self.tracks(name) {
            entry_model(self.channels@[self.slot(name)])
        } else {
            fresh_model()
        }
    }

    /// The configuration.
    pub closed spec fn cfg(&self) -> SequenceConfig {
        self.config
    }

    /// Events not yet taken, oldest first.
    pub closed spec fn queued(&self) -> Seq<SequenceEvent> {
        self.events@
    }

    /// Each channel is stored once, and each held-back message sits under its own number.
    pub closed spec fn wf(&self) -> bool {
        &&& forall|i: int, j: int|
            0 <= i < j < self.channels@.len() ==> self.channels@[i].name@
                != self.channels@[j].name@
        &&& forall|i: int, k: u64|
            0 <= i < self.channels@.len() && #[trigger] self.channels@[i].pending@.contains_key(k)
                ==> self.channels@[i].pending@[k].sequence == k && k < u64::MAX
    }

    /// Create a sequence manager with the default configuration.
    pub fn new() -> (m: Self)
        ensures
            m.wf(),
            m.cfg().max_gap_size == 100 && m.cfg().max_pending_messages == 1000,
            m.cfg().pending_timeout_secs == 30 && m.cfg().auto_resync,
            forall|n: Seq<char>| #[trigger] m.model(n) == fresh_model(),
            m.queued().len() == 0,
    {
        Self::with_config(SequenceConfig::default())
    }

    /// Create a sequence manager with a custom configuration.
    pub fn with_config(config: SequenceConfig) -> (m: Self)
        ensures
            m.wf(),
            m.cfg() == config,
            forall|n: Seq<char>| #[trigger] m.model(n) == fresh_model(),
            m.queued().len() == 0,
    {
        let m = SequenceManager { channels: Vec::new(), config, events: Vec::new() };
        assert forall|n: Seq<char>| #[trigger] m.model(n) == fresh_model() by {
            assert(!m.tracks(n));
        }
        m
    }

    proof fn lemma_slot(&self, i: int)
        requires
            self.wf(),
            0 <= i < self.channels@.len(),
        ensures
            self.tracks(self.channels@[i].name@),
            self.slot(self.channels@[i].name@) == i,
            self.model(self.channels@[i].name@) == entry_model(self.channels@[i]),
    {
        let n = self.channels@[i].name@;
        assert(self.tracks(n));
        let j = self.slot(n);
        if j < i {
            assert(self.channels@[j].name@ != self.channels@[i].name@);
        } else if j > i {
            assert(self.channels@[i].name@ != self.channels@[j].name@);
        }
    }

    /// Store `e` back at `idx`, where the channel of the same name was.
    fn put_back(&mut self, idx: usize, e: ChannelEntry)
        requires
            old(self).wf(),
            idx <= old(self).channels@.len(),
            forall|j: int| 0 <= j < old(self).channels@.len() ==> old(self).channels@[j].name@ != e.name@,
            forall|k: u64| #[trigger] e.pending@.contains_key(k) ==> e.pending@[k].sequence == k && k < u64::MAX,
        ensures
            final(self).wf(),
            final(self).config == old(self).config,
            final(self).events == old(self).events,
            final(self).model(e.name@) == entry_model(e),
            final(self).tracks(e.name@),
            forall|n: Seq<char>| n != e.name@ ==> #[trigger] final(self).model(n) == old(self).model(n),
    {
        let ghost before = *old(self);
        self.channels.insert(idx, e);
        let ghost after = *self;
        assert(after.channels@[idx as int].name@ == e.name@);
        assert(forall|j: int| 0 <= j < idx ==> after.channels@[j] == before.channels@[j]);
        assert(forall|j: int| idx < j < after.channels@.len() ==> after.channels@[j] == before.channels@[j - 1]);
        assert forall|i: int, k: u64|
            0 <= i < after.channels@.len() && #[trigger] after.channels@[i].pending@.contains_key(k)
            implies after.channels@[i].pending@[k].sequence == k && k < u64::MAX by {
            if i < idx {
                assert(after.channels@[i] == before.channels@[i]);
            } else if i > idx {
                assert(after.channels@[i] == before.channels@[i - 1]);
            }
        }
        assert(after.wf());
        proof {
            after.lemma_slot(idx as int);
        }
        assert forall|n: Seq<char>| n != e.name@ implies #[trigger] after.model(n) == before.model(n) by {
            if before.tracks(n) {
                let j = before.slot(n);
                before.lemma_slot(j);
                if j < idx {
                    after.lemma_slot(j);
                } else {
                    after.lemma_slot(j + 1);
                }
            } else {
                if after.tracks(n) {
                    let j = after.slot(n);
                    if j < idx {
                        assert(before.channels@[j].name@ == n);
                    } else if j > idx {
                        assert(before.channels@[j - 1].name@ == n);
                    }
                }
            }
        }
    }

    /// Take the entry of channel `key` out of storage; a fresh one if the channel is new.
    fn take_entry(&mut self, key: &String) -> (r: (usize, ChannelEntry))
        requires
            old(self).wf(),
        ensures
            r.0 <= final(self).channels@.len(),
            r.1.name@ == key@,
            entry_model(r.1) == old(self).model(key@),
            forall|k: u64| #[trigger] r.1.pending@.contains_key(k) ==> r.1.pending@[k].sequence == k && k < u64::MAX,
            forall|j: int| 0 <= j < final(self).channels@.len() ==> final(self).channels@[j].name@ != key@,
            final(self).config == old(self).config,
            final(self).events == old(self).events,
            forall|i: int, j: int|
                0 <= i < j < final(self).channels@.len() ==> final(self).channels@[i].name@
                    != final(self).channels@[j].name@,
            forall|i: int, k: u64|
                0 <= i < final(self).channels@.len() && #[trigger] final(self).channels@[i].pending@.contains_key(k)
                    ==> final(self).channels@[i].pending@[k].sequence == k && k < u64::MAX,
            forall|n: Seq<char>| n != key@ ==> #[trigger] final(self).model(n) == old(self).model(n),
    {
        let ghost before = *old(self);
        match self.find(key) {
            Some(i) => {
                proof {
                    before.lemma_slot(i as int);
                }
                let e = self.channels.remove(i);
                let ghost after = *self;
                assert(forall|j: int| 0 <= j < i ==> after.channels@[j] == before.channels@[j]);
                assert(forall|j: int| i <= j < after.channels@.len() ==> after.channels@[j] == before.channels@[j + 1]);
                assert forall|j: int| 0 <= j < after.channels@.len() implies after.channels@[j].name@ != key@ by {
                    if j < i {
                        assert(before.channels@[j].name@ != before.channels@[i as int].name@);
                    } else {
                        assert(before.channels@[i as int].name@ != before.channels@[j + 1].name@);
                    }
                }
                assert forall|i2: int, k: u64|
                    0 <= i2 < after.channels@.len() && #[trigger] after.channels@[i2].pending@.contains_key(k)
                    implies after.channels@[i2].pending@[k].sequence == k && k < u64::MAX by {
                    if i2 < i {
                        assert(after.channels@[i2] == before.channels@[i2]);
                    } else {
                        assert(after.channels@[i2] == before.channels@[i2 + 1]);
                    }
                }
                assert forall|n: Seq<char>| n != key@ implies #[trigger] after.model(n) == before.model(n) by {
                    if before.tracks(n) {
                        let j = before.slot(n);
                        before.lemma_slot(j);
                        assert(j != i);
                        if j < i {
                            assert(after.channels@[j].name@ == n);
                            assert(after.tracks(n));
                            let j2 = after.slot(n);
                            if j2 != j {
                                if j2 < i {
                                    assert(before.channels@[j2].name@ == n);
                                } else {
                                    assert(before.channels@[j2 + 1].name@ == n);
                                }
                            }
                        } else {
                            assert(after.channels@[j - 1].name@ == n);
                            assert(after.tracks(n));
                            let j2 = after.slot(n);
                            if j2 != j - 1 {
                                if j2 < i {
                                    assert(before.channels@[j2].name@ == n);
                                } else {
                                    assert(before.channels@[j2 + 1].name@ == n);
                                }
                            }
                        }
                    } else {
                        if after.tracks(n) {
                            let j2 = after.slot(n);
                            if j2 < i {
                                assert(before.channels@[j2].name@ == n);
                            } else {
                                assert(before.channels@[j2 + 1].name@ == n);
                            }
                        }
                    }
                }
                (i, e)
            },
            None => {
                let e = ChannelEntry { name: key.clone(), state: SequenceState::new(), pending: HashMap::new() };
                assert(e.pending@.dom() =~= Set::<u64>::empty());
                assert(entry_model(e) =~= fresh_model());
                (self.channels.len(), e)
            },
        }
    }

    /// Process held-back messages that are now in order.
    fn process_pending(e: &mut ChannelEntry)
        requires
            old(e).state.last_sequence < u64::MAX,
            forall|k: u64| #[trigger] old(e).pending@.contains_key(k) ==> old(e).pending@[k].sequence == k && k < u64::MAX,
            old(e).state.messages_processed + (chain_end(old(e).state.last_sequence, old(e).pending@.dom()) - old(e).state.last_sequence) <= u64::MAX,
        ensures
            final(e).name == old(e).name,
            forall|k: u64| #[trigger] final(e).pending@.contains_key(k) ==> final(e).pending@[k].sequence == k && k < u64::MAX,
            entry_model(*final(e)) == (ChannelModel {
                last: chain_end(old(e).state.last_sequence, old(e).pending@.dom()),
                processed: (old(e).state.messages_processed + (chain_end(old(e).state.last_sequence, old(e).pending@.dom()) - old(e).state.last_sequence)) as u64,
                pending: old(e).pending@.dom().difference(seq_range(old(e).state.last_sequence, chain_end(old(e).state.last_sequence, old(e).pending@.dom()))),
                ..entry_model(*old(e))
            }),
    {
        let ghost p0 = old(e).pending@.dom();
        let ghost start = old(e).state.last_sequence;
        let ghost count0 = old(e).state.messages_processed;
        let ghost end = chain_end(start, p0);
        assert(e.pending@.dom() =~= p0.difference(seq_range(start, start)));
        loop
            invariant
                e.name == old(e).name,
                start <= e.state.last_sequence < u64::MAX,
                chain_end(e.state.last_sequence, p0) == end,
                e.pending@.dom() == p0.difference(seq_range(start, e.state.last_sequence)),
                e.state.messages_processed == count0 + (e.state.last_sequence - start),
                count0 + (end - start) <= u64::MAX,
                e.state.gap_detected == old(e).state.gap_detected,
                e.state.resync_triggered == old(e).state.resync_triggered,
                e.state.total_gaps == old(e).state.total_gaps,
                forall|k: u64| #[trigger] e.pending@.contains_key(k) ==> e.pending@[k].sequence == k && k < u64::MAX,
                forall|k: u64| #[trigger] p0.contains(k) ==> k < u64::MAX,
            ensures
                e.name == old(e).name,
                e.state.last_sequence == end,
                e.pending@.dom() == p0.difference(seq_range(start, end)),
                e.state.messages_processed == count0 + (end - start),
                e.state.gap_detected == old(e).state.gap_detected,
                e.state.resync_triggered == old(e).state.resync_triggered,
                e.state.total_gaps == old(e).state.total_gaps,
                forall|k: u64| #[trigger] e.pending@.contains_key(k) ==> e.pending@[k].sequence == k && k < u64::MAX,
            decreases u64::MAX - e.state.last_sequence,
        {
            let next_expected = e.state.last_sequence + 1;
            let ghost last = e.state.last_sequence;
            let removed = e.pending.remove(&next_expected);
            match removed {
                Some(p) => {
                    assert(p0.contains(next_expected));
                    e.state.last_sequence = p.sequence;
                    assert(e.state.last_sequence == next_expected);
                    assert(chain_end(last, p0) == chain_end(next_expected, p0));
                    assert(end >= next_expected) by {
                        lemma_chain_end_ge(next_expected, p0);
                    }
                    e.state.messages_processed = e.state.messages_processed + 1;
                    e.state.last_update = utc_now_micros();
                    assert(e.pending@.dom() =~= p0.difference(seq_range(start, e.state.last_sequence)));
                },
                None => {
                    assert(!p0.contains(next_expected));
                    assert(chain_end(last, p0) == last);
                    break;
                },
            }
        }
        assert(entry_model(*e) =~= ChannelModel {
            last: end,
            processed: (count0 + (end - start)) as u64,
            pending: p0.difference(seq_range(start, end)),
            ..entry_model(*old(e))
        });
    }

    /// Validate and process a message with its sequence number.
    ///
    /// The first message of a channel, and the message right after the last one
    /// processed, are in order; they also release the held-back messages that
    /// follow them. A later message is a gap: it is held back, or triggers a resync
    /// when the gap or the number held back exceeds the configured limits. An
    /// earlier message (duplicate or stale) changes nothing.
    pub fn validate(&mut self, channel: &str, sequence: u64, data: &str) -> (r: SequenceResult)
        requires
            old(self).wf(),
            has_room(old(self).model(channel@), sequence),
        ensures
            final(self).wf(),
            final(self).cfg() == old(self).cfg(),
            final(self).model(channel@) == step(old(self).model(channel@), sequence, old(self).cfg()),
            final(self).tracks(channel@),
            forall|n: Seq<char>| n != channel@ ==> #[trigger] final(self).model(n) == old(self).model(n),
            r.sequence == sequence,
            r.expected == expected_of(old(self).model(channel@)),
            r.in_order == accepted_in_order(old(self).model(channel@), sequence),
            r.gap_size == if !accepted_in_order(old(self).model(channel@), sequence) && sequence
                > expected_of(old(self).model(channel@)) {
                (sequence - expected_of(old(self).model(channel@))) as u64
            } else {
                0
            },
            r.resync_triggered == triggers_resync(old(self).model(channel@), sequence, old(self).cfg()),
            state_matches(r.state, final(self).model(channel@)),
            events_after(old(self).queued(), final(self).queued(), channel@, old(self).model(channel@), sequence, old(self).cfg()),
    {
        let ghost m = old(self).model(channel@);
        let key = channel.to_string();
        let (idx, mut e) = self.take_entry(&key);
        let ghost mid = *self;
        let ghost ev0 = old(self).events@;
        proof {
            lemma_chain_end_ge(sequence, m.pending);
        }
        let expected = e.state.last_sequence + 1;
        let cfg = self.config;
        let result;
        if e.state.last_sequence == 0 || sequence == expected {
            e.state.last_sequence = sequence;
            e.state.messages_processed = e.state.messages_processed + 1;
            e.state.last_update = utc_now_micros();
            e.state.gap_detected = false;
            Self::process_pending(&mut e);
            result = SequenceResult {
                in_order: true,
                sequence,
                expected,
                gap_size: 0,
                resync_triggered: false,
                state: e.state,
            };
            assert(entry_model(e) =~= step(m, sequence, cfg));
        } else if sequence > expected {
            let gap_size = sequence - expected;
            e.state.gap_detected = true;
            e.state.total_gaps = e.state.total_gaps + 1;
            self.events.push(
                SequenceEvent::Gap(
                    GapEvent {
                        channel: key.clone(),
                        expected_sequence: expected,
                        received_sequence: sequence,
                        gap_size,
                        timestamp: utc_now_micros(),
                    },
                ),
            );
            let ghost held = m.pending.insert(sequence);
            assert(self.events@.subrange(0, ev0.len() as int) =~= ev0);
            assert(is_gap_event(self.events@[ev0.len() as int], channel@, expected_of(m), sequence));
            if gap_size > cfg.max_gap_size && cfg.auto_resync {
                e.state.resync_triggered = true;
                self.trigger_resync(&key, &mut e, ResyncReason::GapTooLarge { gap_size });
                assert(self.events@.subrange(0, ev0.len() as int) =~= ev0);
                assert(is_gap_event(self.events@[ev0.len() as int], channel@, expected_of(m), sequence));
                assert(is_resync_event(self.events@[ev0.len() + 1int], channel@, m.last, resync_reason(m, sequence, cfg)));
                result = SequenceResult {
                    in_order: false,
                    sequence,
                    expected,
                    gap_size,
                    resync_triggered: true,
                    state: e.state,
                };
                assert(entry_model(e) =~= step(m, sequence, cfg));
            } else {
                e.pending.insert(
                    sequence,
                    PendingMessage {
                        sequence,
                        data: data.to_string(),
                        received_at: utc_now_micros(),
                    },
                );
                assert(e.pending@.dom() =~= held);
                let count = e.pending.len();
                if count > cfg.max_pending_messages && cfg.auto_resync {
                    e.state.resync_triggered = true;
                    self.trigger_resync(&key, &mut e, ResyncReason::TooManyPending { count });
                    assert(self.events@.subrange(0, ev0.len() as int) =~= ev0);
                    assert(is_gap_event(self.events@[ev0.len() as int], channel@, expected_of(m), sequence));
                    assert(count == held.len());
                    assert(is_resync_event(self.events@[ev0.len() + 1int], channel@, m.last, resync_reason(m, sequence, cfg)));
                    result = SequenceResult {
                        in_order: false,
                        sequence,
                        expected,
                        gap_size,
                        resync_triggered: true,
                        state: e.state,
                    };
                    assert(entry_model(e) =~= step(m, sequence, cfg));
                } else {
                    result = SequenceResult {
                        in_order: false,
                        sequence,
                        expected,
                        gap_size,
                        resync_triggered: false,
                        state: e.state,
                    };
                    assert(entry_model(e) =~= step(m, sequence, cfg));
                }
            }
        } else {
            result = SequenceResult {
                in_order: false,
                sequence,
                expected,
                gap_size: 0,
                resync_triggered: false,
                state: e.state,
            };
            assert(entry_model(e) =~= step(m, sequence, cfg));
        }
        assert(self.channels@ == mid.channels@);
        assert forall|n: Seq<char>| #[trigger] self.model(n) == mid.model(n) by {
            if mid.tracks(n) {
                assert(self.tracks(n));
            }
            if self.tracks(n) {
                assert(mid.tracks(n));
            }
        }
        self.put_back(idx, e);
        result
    }

    /// Queue a resync of the channel held in `e` and drop its held-back messages.
    fn trigger_resync(&mut self, key: &String, e: &mut ChannelEntry, reason: ResyncReason)
        ensures
            final(e).name == old(e).name,
            final(e).state == (SequenceState { resync_triggered: true, ..old(e).state }),
            final(e).pending@ == Map::<u64, PendingMessage>::empty(),
            final(self).channels == old(self).channels,
            final(self).config == old(self).config,
            final(self).events@ == old(self).events@.push(
                SequenceEvent::Resync(
                    ResyncEvent {
                        channel: *key,
                        last_good_sequence: old(e).state.last_sequence,
                        reason,
                        timestamp: final(self).events@.last()->Resync_0.timestamp,
                    },
                ),
            ),
    {
        let event = ResyncEvent {
            channel: key.clone(),
            last_good_sequence: e.state.last_sequence,
            reason,
            timestamp: utc_now_micros(),
        };
        e.pending.clear();
        e.state.resync_triggered = true;
        self.events.push(SequenceEvent::Resync(event));
    }

    /// Whether `validate(channel, sequence)` keeps every counter of the channel within `u64`.
    pub fn can_validate(&self, channel: &str, sequence: u64) -> (b: bool)
        requires
            self.wf(),
        ensures
            b == has_room(self.model(channel@), sequence),
    {
        let key = channel.to_string();
        match self.find(&key) {
            None => {
                proof {
                    lemma_chain_end_fresh(sequence);
                }
                sequence < u64::MAX
            },
            Some(i) => {
                proof {
                    self.lemma_slot(i as int);
                }
                let e = &self.channels[i];
                let ghost p = e.pending@.dom();
                proof {
                    lemma_chain_end_ge(sequence, p);
                }
                if e.state.last_sequence == u64::MAX || sequence == u64::MAX || e.state.total_gaps
                    == u64::MAX || e.state.messages_processed == u64::MAX {
                    return false;
                }
                let mut cur = sequence;
                while cur < u64::MAX && e.pending.contains_key(&(cur + 1))
                    invariant
                        sequence <= cur,
                        chain_end(cur, p) == chain_end(sequence, p),
                        p == e.pending@.dom(),
                    decreases u64::MAX - cur,
                {
                    cur = cur + 1;
                }
                cur - sequence <= u64::MAX - 1 - e.state.messages_processed
            },
        }
    }

    /// Current state of a channel, if the channel has been seen.
    pub fn get_state(&self, channel: &str) -> (r: Option<SequenceState>)
        requires
            self.wf(),
        ensures
            r is Some <==> self.tracks(channel@),
            r matches Some(st) ==> state_matches(st, self.model(channel@)),
    {
        let key = channel.to_string();
        match self.find(&key) {
            Some(i) => {
                proof {
                    self.lemma_slot(i as int);
                }
                Some(self.channels[i].state)
            },
            None => None,
        }
    }

    /// The names of the channels tracked, in the order first seen.
    pub closed spec fn channel_names(&self) -> Seq<Seq<char>> {
        self.channels@.map_values(|e: ChannelEntry| e.name@)
    }

    /// Every tracked channel is among the names, and only those.
    pub proof fn lemma_channel_names(&self, n: Seq<char>)
        requires
            self.wf(),
        ensures
            self.tracks(n) <==> self.channel_names().contains(n),
    {
        if self.tracks(n) {
            let i = self.slot(n);
            assert(self.channel_names()[i] == n);
        }
        if self.channel_names().contains(n) {
            let i = choose|i: int| 0 <= i < self.channel_names().len() && self.channel_names()[i] == n;
            assert(self.channels@[i].name@ == n);
        }
    }

    /// The state of every tracked channel, in the order first seen.
    pub fn get_all_states(&self) -> (r: Vec<(String, SequenceState)>)
        requires
            self.wf(),
        ensures
            r@.len() == self.channel_names().len(),
            forall|i: int|
                0 <= i < r@.len() ==> (#[trigger] r@[i]).0@ == self.channel_names()[i] && self.tracks(r@[i].0@)
                    && state_matches(r@[i].1, self.model(r@[i].0@)),
    {
        let mut r: Vec<(String, SequenceState)> = Vec::new();
        let mut i: usize = 0;
        while i < self.channels.len()
            invariant
                self.wf(),
                i <= self.channels@.len(),
                r@.len() == i,
                forall|k: int|
                    0 <= k < i ==> (#[trigger] r@[k]).0@ == self.channel_names()[k] && self.tracks(r@[k].0@)
                        && state_matches(r@[k].1, self.model(r@[k].0@)),
            decreases self.channels@.len() - i,
        {
            proof {
                self.lemma_slot(i as int);
            }
            let name = self.channels[i].name.clone();
            r.push((name, self.channels[i].state));
            i = i + 1;
        }
        r
    }

    /// Totals over the channels: their number, the messages processed, the
    /// gaps detected, and how many channels saw a gap.
    pub fn stats(&self) -> (st: SequenceStats)
        requires
            self.wf(),
            processed_total(self.channel_models()) <= u64::MAX,
            gaps_total(self.channel_models()) <= u64::MAX,
        ensures
            st.total_channels == self.channel_names().len(),
            st.total_messages == processed_total(self.channel_models()),
            st.total_gaps == gaps_total(self.channel_models()),
            st.channels_with_gaps == gapped_count(self.channel_models()),
    {
        let mut total_messages: u64 = 0;
        let mut total_gaps: u64 = 0;
        let mut channels_with_gaps: usize = 0;
        let mut i: usize = 0;
        while i < self.channels.len()
            invariant
                i <= self.channels@.len(),
                processed_total(self.channel_models()) <= u64::MAX,
                gaps_total(self.channel_models()) <= u64::MAX,
                total_messages == processed_total(self.channel_models().take(i as int)),
                total_gaps == gaps_total(self.channel_models().take(i as int)),
                channels_with_gaps == gapped_count(self.channel_models().take(i as int)),
                channels_with_gaps <= i,
            decreases self.channels@.len() - i,
        {
            let ghost ms = self.channel_models();
            proof {
                assert(ms.take(i as int + 1).drop_last() =~= ms.take(i as int));
                lemma_totals_prefix(ms, i as int + 1);
            }
            total_messages = total_messages + self.channels[i].state.messages_processed;
            total_gaps = total_gaps + self.channels[i].state.total_gaps;
            if self.channels[i].state.total_gaps > 0 {
                channels_with_gaps = channels_with_gaps + 1;
            }
            i = i + 1;
        }
        proof {
            assert(self.channel_models().take(i as int) =~= self.channel_models());
        }
        SequenceStats { total_channels: self.channels.len(), total_messages, total_gaps, channels_with_gaps }
    }

    /// The models of the channels tracked, in the order first seen.
    pub closed spec fn channel_models(&self) -> Seq<ChannelModel> {
        self.channels@.map_values(|e: ChannelEntry| entry_model(e))
    }

    /// Forget a channel: its next message starts it afresh.
    pub fn reset(&mut self, channel: &str)
        requires
            old(self).wf(),
        ensures
            final(self).wf(),
            final(self).cfg() == old(self).cfg(),
            final(self).queued() == old(self).queued(),
            !final(self).tracks(channel@),
            final(self).model(channel@) == fresh_model(),
            forall|n: Seq<char>| n != channel@ ==> #[trigger] final(self).model(n) == old(self).model(n),
    {
        let key = channel.to_string();
        let (_idx, _e) = self.take_entry(&key);
        assert(!self.tracks(key@));
    }

    /// Forget every channel.
    pub fn reset_all(&mut self)
        requires
            old(self).wf(),
        ensures
            final(self).wf(),
            final(self).cfg() == old(self).cfg(),
            final(self).queued() == old(self).queued(),
            forall|n: Seq<char>| #[trigger] final(self).model(n) == fresh_model(),
    {
        self.channels.clear();
        assert forall|n: Seq<char>| #[trigger] self.model(n) == fresh_model() by {
            assert(!self.tracks(n));
        }
    }

    /// Manual resync request: a tracked channel drops its held-back messages and is
    /// marked as resynced; an unknown channel is left alone.
    pub fn request_resync(&mut self, channel: &str)
        requires
            old(self).wf(),
        ensures
            final(self).wf(),
            final(self).cfg() == old(self).cfg(),
            forall|n: Seq<char>| n != channel@ ==> #[trigger] final(self).model(n) == old(self).model(n),
            if old(self).tracks(channel@) {
                &&& final(self).model(channel@) == (ChannelModel {
                    resync_triggered: true,
                    pending: Set::empty(),
                    ..old(self).model(channel@)
                })
                &&& final(self).queued().len() == old(self).queued().len() + 1
                &&& final(self).queued().drop_last() == old(self).queued()
                &&& is_resync_event(
                    final(self).queued().last(),
                    channel@,
                    old(self).model(channel@).last,
                    ResyncReason::ManualRequest,
                )
            } else {
                *final(self) == *old(self)
            },
    {
        let key = channel.to_string();
        if self.find(&key).is_none() {
            return;
        }
        let ghost m = old(self).model(channel@);
        let ghost ev0 = old(self).events@;
        let (idx, mut e) = self.take_entry(&key);
        let ghost mid = *self;
        self.trigger_resync(&key, &mut e, ResyncReason::ManualRequest);
        assert(self.events@.drop_last() =~= ev0);
        assert(entry_model(e) =~= ChannelModel { resync_triggered: true, pending: Set::empty(), ..m });
        assert forall|n: Seq<char>| #[trigger] self.model(n) == mid.model(n) by {
            if mid.tracks(n) {
                assert(self.tracks(n));
            }
            if self.tracks(n) {
                assert(mid.tracks(n));
            }
        }
        self.put_back(idx, e);
    }

    /// Hand over the queued gap and resync events, oldest first.
    pub fn take_events(&mut self) -> (r: Vec<SequenceEvent>)
        requires
            old(self).wf(),
        ensures
            final(self).wf(),
            r@ == old(self).queued(),
            final(self).queued().len() == 0,
            final(self).cfg() == old(self).cfg(),
            forall|n: Seq<char>| #[trigger] final(self).model(n) == old(self).model(n),
    {
        let mut out: Vec<SequenceEvent> = Vec::new();
        std::mem::swap(&mut out, &mut self.events);
        assert(self.channels@ == old(self).channels@);
        assert forall|n: Seq<char>| #[trigger] self.model(n) == old(self).model(n) by {
            if old(self).tracks(n) {
                let i = choose|i: int| 0 <= i < old(self).channels@.len() && old(self).channels@[i].name@ == n;
                assert(self.channels@[i].name@ == n);
                assert(self.tracks(n));
            }
            if self.tracks(n) {
                assert(old(self).tracks(n));
            }
        }
        out
    }

    /// The configuration in use.
    pub fn config(&self) -> (c: &SequenceConfig)
        ensures
            *c == self.cfg(),
    {
        &self.config
    }

    /// Where channel `key` is stored, if it is.
    fn find(&self, key: &String) -> (r: Option<usize>)
        ensures
            match r {
                Some(i) => i < self.channels@.len() && self.channels@[i as int].name@ == key@,
                None => !self.tracks(key@),
            },
    {
        let mut i: usize = 0;
        while i < self.channels.len()
            invariant
                i <= self.channels@.len(),
                forall|j: int| 0 <= j < i ==> self.channels@[j].name@ != key@,
            decreases self.channels@.len() - i,
        {
            if self.channels[i].name == *key {
                return Some(i);
            }
            i = i + 1;
        }
        None
    }
}

} // verus!

verus! {

/// The invariant of a channel model: nothing is held back before the first message,
/// and every held-back number lies beyond the next expected one.
pub open spec fn held_ahead(m: ChannelModel) -> bool {
    &&& m.last == 0 ==> m.pending.is_empty()
    &&& forall|k: u64| #[trigger] m.pending.contains(k) ==> k > m.last + 1
}

/// The chain stops at the first number that is not held back.
pub proof fn lemma_chain_end_stops(last: u64, pending: Set<u64>)
    ensures
        chain_end(last, pending) == u64::MAX || !pending.contains(
            (chain_end(last, pending) + 1) as u64,
        ),
        forall|k: u64| last < k <= chain_end(last, pending) ==> pending.contains(k),
    decreases u64::MAX - last,
{
    if last < u64::MAX && pending.contains((last + 1) as u64) {
        lemma_chain_end_stops((last + 1) as u64, pending);
    }
}

/// Held-back messages are always ahead of the next expected number: validating any
/// message keeps the invariant of a channel.
pub proof fn law_held_messages_stay_ahead(m: ChannelModel, seq: u64, cfg: SequenceConfig)
    requires
        held_ahead(m),
        m.pending.finite(),
        m.last < u64::MAX,
    ensures
        held_ahead(step(m, seq, cfg)),
        step(m, seq, cfg).pending.finite(),
{
    let n = step(m, seq, cfg);
    if accepted_in_order(m, seq) {
        let end = chain_end(seq, m.pending);
        lemma_chain_end_stops(seq, m.pending);
        lemma_chain_end_ge(seq, m.pending);
        assert forall|k: u64| #[trigger] n.pending.contains(k) implies k > n.last + 1 by {
            assert(m.pending.contains(k));
            assert(!(seq < k <= end));
            if m.last != 0 {
                assert(k > seq);
                assert(k > end);
                if end < u64::MAX {
                    assert(k != end + 1);
                }
            }
        }
        if n.last == 0 {
            assert(n.pending =~= Set::<u64>::empty()) by {
                assert forall|k: u64| !n.pending.contains(k) by {
                    if m.pending.contains(k) {
                        assert(m.last != 0);
                    }
                }
            }
        }
    } else if seq > expected_of(m) {
        if !triggers_resync(m, seq, cfg) {
            assert(n.pending == m.pending.insert(seq));
        }
    }
}

/// With nothing held back, messages arriving in order advance the channel one by one
/// and report no gap.
pub proof fn law_in_order_advances(m: ChannelModel, cfg: SequenceConfig)
    requires
        m.pending.is_empty(),
        m.last + 1 < u64::MAX,
        m.processed < u64::MAX,
    ensures
        accepted_in_order(m, (m.last + 1) as u64),
        step(m, (m.last + 1) as u64, cfg).last == m.last + 1,
        step(m, (m.last + 1) as u64, cfg).processed == m.processed + 1,
        !step(m, (m.last + 1) as u64, cfg).gap_detected,
{
    let seq = (m.last + 1) as u64;
    assert(!m.pending.contains((seq + 1) as u64));
    assert(chain_end(seq, m.pending) == seq);
    assert(m.pending.difference(seq_range(seq, seq)) =~= m.pending);
}

/// A duplicate or stale message (one at or before the last processed) changes nothing.
pub proof fn law_stale_messages_ignored(m: ChannelModel, seq: u64, cfg: SequenceConfig)
    requires
        m.last != 0,
        m.last < u64::MAX,
        seq <= m.last,
    ensures
        step(m, seq, cfg) == m,
        !triggers_resync(m, seq, cfg),
{
}

/// Filling a one-message gap releases the message held back behind it: after `last`,
/// receiving `last + 2` then `last + 1` leaves the channel at `last + 2` with nothing held.
pub proof fn law_gap_fill_releases(m: ChannelModel, cfg: SequenceConfig)
    requires
        held_ahead(m),
        m.pending.is_empty(),
        m.last != 0,
        m.last + 3 < u64::MAX,
        m.processed + 2 <= u64::MAX,
        m.total_gaps < u64::MAX,
        cfg.max_gap_size >= 1 || !cfg.auto_resync,
        cfg.max_pending_messages >= 1 || !cfg.auto_resync,
    ensures
        ({
            let a = step(m, (m.last + 2) as u64, cfg);
            let b = step(a, (m.last + 1) as u64, cfg);
            &&& a.gap_detected
            &&& a.pending == set![(m.last + 2) as u64]
            &&& b.last == m.last + 2
            &&& b.pending.is_empty()
            &&& !b.gap_detected
            &&& b.processed == m.processed + 2
        }),
{
    let s2 = (m.last + 2) as u64;
    let s1 = (m.last + 1) as u64;
    assert(m.pending =~= Set::<u64>::empty());
    assert(m.pending.insert(s2) =~= set![s2]);
    assert(set![s2].len() == 1) by {
        assert(set![s2] =~= Set::<u64>::empty().insert(s2));
    }
    let a = step(m, s2, cfg);
    assert(a.pending =~= set![s2]);
    assert(chain_end(s2, a.pending) == s2);
    assert(chain_end(s1, a.pending) == s2);
    let b = step(a, s1, cfg);
    assert(b.pending =~= Set::<u64>::empty());
}

/// A resync drops every held-back message and marks the channel.
pub proof fn law_resync_clears_held(m: ChannelModel, seq: u64, cfg: SequenceConfig)
    requires
        triggers_resync(m, seq, cfg),
    ensures
        step(m, seq, cfg).pending.is_empty(),
        step(m, seq, cfg).resync_triggered,
        step(m, seq, cfg).gap_detected,
        step(m, seq, cfg).last == m.last,
{
}

/// Totals over the channels of a manager.
#[derive(Debug, Clone, Copy)]
pub struct SequenceStats {
    pub total_channels: usize,
    pub total_messages: u64,
    pub total_gaps: u64,
    pub channels_with_gaps: usize,
}

/// Messages processed over channel models.
pub open spec fn processed_total(ms: Seq<ChannelModel>) -> nat
    decreases ms.len(),
{
    if ms.len() == 0 {
        0
    } else {
        processed_total(ms.drop_last()) + ms.last().processed as nat
    }
}

/// Gaps detected over channel models.
pub open spec fn gaps_total(ms: Seq<ChannelModel>) -> nat
    decreases ms.len(),
{
    if ms.len() == 0 {
        0
    } else {
        gaps_total(ms.drop_last()) + ms.last().total_gaps as nat
    }
}

/// The number of channel models that saw a gap.
pub open spec fn gapped_count(ms: Seq<ChannelModel>) -> nat
    decreases ms.len(),
{
    if ms.len() == 0 {
        0
    } else {
        gapped_count(ms.drop_last()) + if ms.last().total_gaps > 0 {
            1nat
        } else {
            0nat
        }
    }
}

/// Totals over a prefix never exceed those over the whole.
proof fn lemma_totals_prefix(ms: Seq<ChannelModel>, k: int)
    requires
        0 <= k <= ms.len(),
    ensures
        processed_total(ms.take(k)) <= processed_total(ms),
        gaps_total(ms.take(k)) <= gaps_total(ms),
    decreases ms.len() - k,
{
    if k < ms.len() {
        lemma_totals_prefix(ms, k + 1);
        assert(ms.take(k + 1).drop_last() =~= ms.take(k));
    } else {
        assert(ms.take(k) =~= ms);
    }
}

} // verus!
