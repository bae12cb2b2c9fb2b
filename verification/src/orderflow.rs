//! Order flow tracking: the changes of liquidity between successive books of
//! a symbol (levels added and removed, size changes, large orders appearing
//! and disappearing, best bid/offer moves), trades by price level, and the
//! health of each market's update stream.

use crate::clock::utc_now_micros;
use crate::data::{PriceLevel, TradeData, TradeSide};
use crate::decimal::{
    abs, checked_add, checked_div, checked_mul, checked_sub, dec_abs, dec_add, dec_div, dec_eq, dec_floor,
    dec_from_i64, dec_from_u64, dec_is_zero, dec_lt, dec_mantissa, dec_mul, dec_of_int, dec_of_u64, dec_sub, floor, units,
};
use crate::orderbook::{ascending, highest, lookup, lowest, top_count, BookSide, Entry, OrderBook};
use rust_decimal::Decimal;
use std::collections::VecDeque;
use vstd::prelude::*;

verus! {

broadcast use vstd::string::group_string_axioms;

/// Configuration for order flow tracking.
#[derive(Debug, Clone, Copy)]
pub struct OrderFlowConfig {
    /// Minimum volume to consider as a "large" order
    pub large_order_threshold: Decimal,
    /// Minimum volume change to emit a size change event
    pub min_size_change: Decimal,
    /// Number of levels to track from best bid/ask
    pub track_depth: usize,
    /// Maximum number of events to keep in history
    pub max_history: usize,
    /// Whether to track size changes (can be noisy)
    pub track_size_changes: bool,
}

impl Default for OrderFlowConfig {
    fn default() -> (c: Self)
        ensures
            c.large_order_threshold == dec_of_int(10),
            c.min_size_change == dec_of_int(1),
            c.track_depth == 20,
            c.max_history == 1000,
            c.track_size_changes,
    {
        OrderFlowConfig {
            large_order_threshold: dec_from_i64(10),
            min_size_change: dec_from_i64(1),
            track_depth: 20,
            max_history: 1000,
            track_size_changes: true,
        }
    }
}

/// Order flow event types.
#[derive(Debug, Clone, Copy)]
pub enum FlowEventType {
    /// A large order appeared at this price level
    LargeOrderAppeared,
    /// A large order disappeared from this price level
    LargeOrderDisappeared,
    /// Size increased at this level
    SizeIncreased { delta: Decimal },
    /// Size decreased at this level
    SizeDecreased { delta: Decimal },
    /// New price level added
    LevelAdded,
    /// Price level removed
    LevelRemoved,
    /// Best bid changed
    BestBidChanged { old: Decimal, new: Decimal },
    /// Best ask changed
    BestAskChanged { old: Decimal, new: Decimal },
}

/// Side of the order book.
#[derive(Debug, Clone, Copy, PartialEq, Eq, Structural)]
pub enum FlowSide {
    Bid,
    Ask,
}

/// What changed at a price level.
#[derive(Debug, Clone, Copy)]
pub struct FlowChange {
    /// Price level where the change occurred
    pub price: Decimal,
    /// Side (bid or ask)
    pub side: FlowSide,
    /// Type of change
    pub event_type: FlowEventType,
    /// Volume at this level after the change
    pub current_volume: Decimal,
    /// Volume at this level before the change
    pub previous_volume: Decimal,
}

/// A single order flow event.
#[derive(Debug)]
pub struct FlowEvent {
    /// Symbol this event is for
    pub symbol: String,
    /// Price level where event occurred
    pub price: Decimal,
    /// Side (bid or ask)
    pub side: FlowSide,
    /// Type of event
    pub event_type: FlowEventType,
    /// Current volume at this level (after change)
    pub current_volume: Decimal,
    /// Previous volume at this level (before change)
    pub previous_volume: Decimal,
    /// Microseconds since the Unix epoch (UTC)
    pub timestamp: i64,
    /// Sequence number for ordering
    pub sequence: u64,
}

/// What an event records: its symbol, its change and its sequence number.
pub struct FlowRecord {
    pub symbol: Seq<char>,
    pub change: FlowChange,
    pub sequence: u64,
}

impl View for FlowEvent {
    type V = FlowRecord;

    open spec fn view(&self) -> FlowRecord {
        FlowRecord {
            symbol: self.symbol@,
            change: FlowChange {
                price: self.price,
                side: self.side,
                event_type: self.event_type,
                current_volume: self.current_volume,
                previous_volume: self.previous_volume,
            },
            sequence: self.sequence,
        }
    }
}

impl FlowEvent {
    /// A copy of the event.
    pub fn duplicate(&self) -> (e: Self)
        ensures
            e@ == self@,
            e.timestamp == self.timestamp,
    {
        FlowEvent {
            symbol: self.symbol.clone(),
            price: self.price,
            side: self.side,
            event_type: self.event_type,
            current_volume: self.current_volume,
            previous_volume: self.previous_volume,
            timestamp: self.timestamp,
            sequence: self.sequence,
        }
    }
}

/// The decimal zero.
pub open spec fn zero() -> Decimal {
    dec_of_int(0)
}

/// The change a size difference at a level makes: none below the minimum
/// change or when size changes are not tracked; a large order appearing or
/// disappearing when the size crosses the threshold; else the size increase
/// or decrease. The outer `None` is an overflow.
pub open spec fn size_change(
    price: Decimal,
    side: FlowSide,
    cur: Decimal,
    prev: Decimal,
    cfg: OrderFlowConfig,
) -> Option<Option<FlowChange>> {
    let th = units(cfg.large_order_threshold);
    match dec_sub(cur, prev) {
        None => None,
        Some(delta) => if units(dec_abs(delta)) >= units(cfg.min_size_change) && cfg.track_size_changes {
            let t = if units(delta) > 0 {
                if units(cur) >= th && units(prev) < th {
                    FlowEventType::LargeOrderAppeared
                } else {
                    FlowEventType::SizeIncreased { delta }
                }
            } else {
                if units(prev) >= th && units(cur) < th {
                    FlowEventType::LargeOrderDisappeared
                } else {
                    FlowEventType::SizeDecreased { delta: dec_abs(delta) }
                }
            };
            Some(Some(FlowChange { price, side, event_type: t, current_volume: cur, previous_volume: prev }))
        } else {
            Some(None)
        },
    }
}

/// Whether a change's size event agrees with its volumes: a size increase
/// carries the difference current − previous, which is positive; a size
/// decrease carries the magnitude of that difference, which is not
/// positive.
pub open spec fn size_event_follows_volumes(c: FlowChange) -> bool {
    match c.event_type {
        FlowEventType::SizeIncreased { delta } => dec_sub(c.current_volume, c.previous_volume) == Some(delta) && units(
            delta,
        ) > 0,
        FlowEventType::SizeDecreased { delta } => dec_sub(c.current_volume, c.previous_volume) matches Some(d) && units(d)
            <= 0 && delta == dec_abs(d),
        _ => true,
    }
}

/// The change of a current level against the previous side: a size change
/// for a level that existed, else a new level (a large order if at or above
/// the threshold). The outer `None` is an overflow.
pub open spec fn level_change(e: Entry, prev: Seq<Entry>, side: FlowSide, cfg: OrderFlowConfig) -> Option<Option<FlowChange>> {
    match lookup(prev, units(e.0)) {
        Some(p) => size_change(e.0, side, e.1.volume, p.volume, cfg),
        None => Some(
            Some(
                FlowChange {
                    price: e.0,
                    side,
                    event_type: if units(e.1.volume) >= units(cfg.large_order_threshold) {
                        FlowEventType::LargeOrderAppeared
                    } else {
                        FlowEventType::LevelAdded
                    },
                    current_volume: e.1.volume,
                    previous_volume: zero(),
                },
            ),
        ),
    }
}

/// The changes of the current levels, in price order; `None` on overflow.
pub open spec fn additions(curr: Seq<Entry>, prev: Seq<Entry>, side: FlowSide, cfg: OrderFlowConfig) -> Option<Seq<FlowChange>>
    decreases curr.len(),
{
    if curr.len() == 0 {
        Some(Seq::empty())
    } else {
        match (additions(curr.drop_last(), prev, side, cfg), level_change(curr.last(), prev, side, cfg)) {
            (Some(a), Some(c)) => Some(
                match c {
                    Some(x) => a.push(x),
                    None => a,
                },
            ),
            _ => None,
        }
    }
}

/// The previous levels gone from the current side, in price order (a large
/// order disappearing if at or above the threshold).
pub open spec fn removals(prev: Seq<Entry>, curr: Seq<Entry>, side: FlowSide, cfg: OrderFlowConfig) -> Seq<FlowChange>
    decreases prev.len(),
{
    if prev.len() == 0 {
        Seq::empty()
    } else {
        let r = removals(prev.drop_last(), curr, side, cfg);
        let e = prev.last();
        if lookup(curr, units(e.0)) is None {
            r.push(
                FlowChange {
                    price: e.0,
                    side,
                    event_type: if units(e.1.volume) >= units(cfg.large_order_threshold) {
                        FlowEventType::LargeOrderDisappeared
                    } else {
                        FlowEventType::LevelRemoved
                    },
                    current_volume: zero(),
                    previous_volume: e.1.volume,
                },
            )
        } else {
            r
        }
    }
}

/// The changes of one side: the current levels' changes, then the removals.
pub open spec fn side_changes(prev: Seq<Entry>, curr: Seq<Entry>, side: FlowSide, cfg: OrderFlowConfig) -> Option<Seq<FlowChange>> {
    match additions(curr, prev, side, cfg) {
        Some(a) => Some(a + removals(prev, curr, side, cfg)),
        None => None,
    }
}

/// A move of the best price of a side: only when both books have one and
/// the values differ.
pub open spec fn best_change(old: Option<Decimal>, new: Option<Decimal>, side: FlowSide) -> Seq<FlowChange> {
    match (old, new) {
        (Some(o), Some(n)) => if units(o) != units(n) {
            seq![FlowChange {
                price: n,
                side,
                event_type: if side == FlowSide::Bid {
                    FlowEventType::BestBidChanged { old: o, new: n }
                } else {
                    FlowEventType::BestAskChanged { old: o, new: n }
                },
                current_volume: zero(),
                previous_volume: zero(),
            }]
        } else {
            Seq::empty()
        },
        _ => Seq::empty(),
    }
}

// ---------------------------------------------------------------------------
// Computing the changes
// ---------------------------------------------------------------------------

/// Computes `size_change`.
fn size_change_of(price: Decimal, side: FlowSide, cur: Decimal, prev: Decimal, cfg: &OrderFlowConfig) -> (r: Option<Option<FlowChange>>)
    ensures
        r == size_change(price, side, cur, prev, *cfg),
{
    let th = &cfg.large_order_threshold;
    match checked_sub(&cur, &prev) {
        None => None,
        Some(delta) => {
            let mag = abs(&delta);
            if !dec_lt(&mag, &cfg.min_size_change) && cfg.track_size_changes {
                let t = if dec_lt(&dec_from_i64(0), &delta) {
                    if !dec_lt(&cur, th) && dec_lt(&prev, th) {
                        FlowEventType::LargeOrderAppeared
                    } else {
                        FlowEventType::SizeIncreased { delta }
                    }
                } else {
                    if !dec_lt(&prev, th) && dec_lt(&cur, th) {
                        FlowEventType::LargeOrderDisappeared
                    } else {
                        FlowEventType::SizeDecreased { delta: mag }
                    }
                };
                Some(Some(FlowChange { price, side, event_type: t, current_volume: cur, previous_volume: prev }))
            } else {
                Some(None)
            }
        },
    }
}

/// Computes the changes of one side against its previous snapshot.
fn changes_of_side(prev: &BookSide, curr: &BookSide, side: FlowSide, cfg: &OrderFlowConfig) -> (r: Option<Vec<FlowChange>>)
    ensures
        match r {
            Some(v) => side_changes(prev@, curr@, side, *cfg) == Some(v@),
            None => side_changes(prev@, curr@, side, *cfg) is None,
        },
{
    let mut out: Vec<FlowChange> = Vec::new();
    let n = curr.len();
    let mut i: usize = 0;
    while i < n
        invariant
            n == curr@.len(),
            i <= n,
            additions(curr@.take(i as int), prev@, side, *cfg) == Some(out@),
        decreases n - i,
    {
        assert(curr@.take(i + 1).drop_last() =~= curr@.take(i as int));
        let e = curr.entry(i);
        let c = match prev.get(&e.0) {
            Some(p) => size_change_of(e.0, side, e.1.volume, p.volume, cfg),
            None => Some(
                Some(
                    FlowChange {
                        price: e.0,
                        side,
                        event_type: if !dec_lt(&e.1.volume, &cfg.large_order_threshold) {
                            FlowEventType::LargeOrderAppeared
                        } else {
                            FlowEventType::LevelAdded
                        },
                        current_volume: e.1.volume,
                        previous_volume: dec_from_i64(0),
                    },
                ),
            ),
        };
        match c {
            None => {
                proof {
                    lemma_additions_prefix(curr@, prev@, side, *cfg, i + 1);
                }
                return None;
            },
            Some(Some(x)) => out.push(x),
            Some(None) => {},
        }
        i = i + 1;
    }
    assert(curr@.take(n as int) =~= curr@);
    let ghost adds = out@;
    let m = prev.len();
    let mut j: usize = 0;
    while j < m
        invariant
            m == prev@.len(),
            j <= m,
            out@ == adds + removals(prev@.take(j as int), curr@, side, *cfg),
        decreases m - j,
    {
        assert(prev@.take(j + 1).drop_last() =~= prev@.take(j as int));
        let e = prev.entry(j);
        if curr.get(&e.0).is_none() {
            out.push(
                FlowChange {
                    price: e.0,
                    side,
                    event_type: if !dec_lt(&e.1.volume, &cfg.large_order_threshold) {
                        FlowEventType::LargeOrderDisappeared
                    } else {
                        FlowEventType::LevelRemoved
                    },
                    current_volume: dec_from_i64(0),
                    previous_volume: e.1.volume,
                },
            );
        }
        j = j + 1;
        assert(out@ =~= adds + removals(prev@.take(j as int), curr@, side, *cfg));
    }
    assert(prev@.take(m as int) =~= prev@);
    Some(out)
}

/// Changes that fail on a prefix fail on the whole.
proof fn lemma_additions_prefix(curr: Seq<Entry>, prev: Seq<Entry>, side: FlowSide, cfg: OrderFlowConfig, i: int)
    requires
        0 <= i <= curr.len(),
        additions(curr.take(i), prev, side, cfg) is None,
    ensures
        additions(curr, prev, side, cfg) is None,
    decreases curr.len(),
{
    if i < curr.len() {
        assert(curr.drop_last().take(i) =~= curr.take(i));
        lemma_additions_prefix(curr.drop_last(), prev, side, cfg, i);
    } else {
        assert(curr.take(i) =~= curr);
    }
}

/// Computes `best_change`.
fn best_change_of(old: Option<Decimal>, new: Option<Decimal>, side: FlowSide) -> (r: Vec<FlowChange>)
    ensures
        r@ == best_change(old, new, side),
{
    let mut out: Vec<FlowChange> = Vec::new();
    match (old, new) {
        (Some(o), Some(n)) => {
            if !dec_eq(&o, &n) {
                let t = if side == FlowSide::Bid {
                    FlowEventType::BestBidChanged { old: o, new: n }
                } else {
                    FlowEventType::BestAskChanged { old: o, new: n }
                };
                out.push(
                    FlowChange {
                        price: n,
                        side,
                        event_type: t,
                        current_volume: dec_from_i64(0),
                        previous_volume: dec_from_i64(0),
                    },
                );
                assert(out@ =~= best_change(old, new, side));
            }
        },
        _ => {},
    }
    assert(out@ =~= best_change(old, new, side));
    out
}

// ---------------------------------------------------------------------------
// The tracker
// ---------------------------------------------------------------------------

/// A level as a snapshot keeps it: filed under its price, with that price.
pub open spec fn snap_entries(s: Seq<Entry>) -> Seq<Entry> {
    s.map_values(|e: Entry| (e.0, PriceLevel { price: e.0, volume: e.1.volume, timestamp: e.1.timestamp }))
}

/// The snapshot of the best `depth` bids.
pub open spec fn snap_bids(s: Seq<Entry>, depth: usize) -> Seq<Entry> {
    snap_entries(s.subrange(s.len() - top_count(s, depth as int), s.len() as int))
}

/// The snapshot of the best `depth` asks.
pub open spec fn snap_asks(s: Seq<Entry>, depth: usize) -> Seq<Entry> {
    snap_entries(s.take(top_count(s, depth as int)))
}

/// What a snapshot of a book holds.
pub struct SnapshotView {
    pub bids: Seq<Entry>,
    pub asks: Seq<Entry>,
    pub best_bid: Option<Decimal>,
    pub best_ask: Option<Decimal>,
}

/// The snapshot of a book: its best `depth` levels per side and its best prices.
pub open spec fn snapshot_of(book: &OrderBook, depth: usize) -> SnapshotView {
    SnapshotView {
        bids: snap_bids(book.bids@, depth),
        asks: snap_asks(book.asks@, depth),
        best_bid: highest(book.bids@),
        best_ask: lowest(book.asks@),
    }
}

/// The changes between two snapshots: bid side, ask side, best bid, best ask.
pub open spec fn flow_changes(prev: SnapshotView, curr: SnapshotView, cfg: OrderFlowConfig) -> Option<Seq<FlowChange>> {
    match (side_changes(prev.bids, curr.bids, FlowSide::Bid, cfg), side_changes(prev.asks, curr.asks, FlowSide::Ask, cfg)) {
        (Some(b), Some(a)) => Some(
            b + a + best_change(prev.best_bid, curr.best_bid, FlowSide::Bid) + best_change(
                prev.best_ask,
                curr.best_ask,
                FlowSide::Ask,
            ),
        ),
        _ => None,
    }
}

/// Every change that a level's size difference makes agrees with its volumes.
proof fn lemma_level_change_follows(e: Entry, prev: Seq<Entry>, side: FlowSide, cfg: OrderFlowConfig)
    ensures
        level_change(e, prev, side, cfg) matches Some(Some(c)) ==> size_event_follows_volumes(c),
{
}

/// Every change of the current levels agrees with its volumes.
proof fn lemma_additions_follow(curr: Seq<Entry>, prev: Seq<Entry>, side: FlowSide, cfg: OrderFlowConfig)
    ensures
        additions(curr, prev, side, cfg) matches Some(a) ==> forall|i: int|
            0 <= i < a.len() ==> size_event_follows_volumes(#[trigger] a[i]),
    decreases curr.len(),
{
    if curr.len() > 0 {
        lemma_additions_follow(curr.drop_last(), prev, side, cfg);
        lemma_level_change_follows(curr.last(), prev, side, cfg);
        if let Some(a) = additions(curr, prev, side, cfg) {
            let a0 = additions(curr.drop_last(), prev, side, cfg).unwrap();
            assert forall|i: int| 0 <= i < a.len() implies size_event_follows_volumes(#[trigger] a[i]) by {
                if i < a0.len() {
                    assert(a[i] == a0[i]);
                }
            }
        }
    }
}

/// Removed levels make no size events.
proof fn lemma_removals_follow(prev: Seq<Entry>, curr: Seq<Entry>, side: FlowSide, cfg: OrderFlowConfig)
    ensures
        forall|i: int|
            0 <= i < removals(prev, curr, side, cfg).len() ==> size_event_follows_volumes(
                #[trigger] removals(prev, curr, side, cfg)[i],
            ),
    decreases prev.len(),
{
    if prev.len() > 0 {
        lemma_removals_follow(prev.drop_last(), curr, side, cfg);
        let r0 = removals(prev.drop_last(), curr, side, cfg);
        let r = removals(prev, curr, side, cfg);
        assert forall|i: int| 0 <= i < r.len() implies size_event_follows_volumes(#[trigger] r[i]) by {
            if i < r0.len() {
                assert(r[i] == r0[i]);
            }
        }
    }
}

/// Every change of a side agrees with its volumes.
proof fn lemma_side_changes_follow(prev: Seq<Entry>, curr: Seq<Entry>, side: FlowSide, cfg: OrderFlowConfig)
    ensures
        side_changes(prev, curr, side, cfg) matches Some(cs) ==> forall|i: int|
            0 <= i < cs.len() ==> size_event_follows_volumes(#[trigger] cs[i]),
{
    lemma_additions_follow(curr, prev, side, cfg);
    lemma_removals_follow(prev, curr, side, cfg);
    if let Some(cs) = side_changes(prev, curr, side, cfg) {
        let a = additions(curr, prev, side, cfg).unwrap();
        let r = removals(prev, curr, side, cfg);
        assert forall|i: int| 0 <= i < cs.len() implies size_event_follows_volumes(#[trigger] cs[i]) by {
            if i < a.len() {
                assert(cs[i] == a[i]);
            } else {
                assert(cs[i] == r[i - a.len()]);
            }
        }
    }
}

/// Every change between two snapshots agrees with its volumes.
proof fn lemma_flow_changes_follow(prev: SnapshotView, curr: SnapshotView, cfg: OrderFlowConfig)
    ensures
        flow_changes(prev, curr, cfg) matches Some(cs) ==> forall|i: int|
            0 <= i < cs.len() ==> size_event_follows_volumes(#[trigger] cs[i]),
{
    lemma_side_changes_follow(prev.bids, curr.bids, FlowSide::Bid, cfg);
    lemma_side_changes_follow(prev.asks, curr.asks, FlowSide::Ask, cfg);
    if let Some(cs) = flow_changes(prev, curr, cfg) {
        let b = side_changes(prev.bids, curr.bids, FlowSide::Bid, cfg).unwrap();
        let a = side_changes(prev.asks, curr.asks, FlowSide::Ask, cfg).unwrap();
        let x = best_change(prev.best_bid, curr.best_bid, FlowSide::Bid);
        let y = best_change(prev.best_ask, curr.best_ask, FlowSide::Ask);
        assert(cs == b + a + x + y);
        assert forall|i: int| 0 <= i < cs.len() implies size_event_follows_volumes(#[trigger] cs[i]) by {
            if i < b.len() {
                assert(cs[i] == b[i]);
            } else if i < b.len() + a.len() {
                assert(cs[i] == a[i - b.len()]);
            } else if i < b.len() + a.len() + x.len() {
                assert(cs[i] == x[i - b.len() - a.len()]);
            } else {
                assert(cs[i] == y[i - b.len() - a.len() - x.len()]);
            }
        }
    }
}

/// The last `n` items of a sequence (all of them if fewer).
pub open spec fn keep_last<A>(s: Seq<A>, n: nat) -> Seq<A> {
    if s.len() > n {
        s.subrange(s.len() - n, s.len() as int)
    } else {
        s
    }
}

/// The records of a list of events.
pub open spec fn records(v: Seq<FlowEvent>) -> Seq<FlowRecord> {
    v.map_values(|e: FlowEvent| e@)
}

/// The records of the events made of changes, numbered on from `seq`.
pub open spec fn numbered(symbol: Seq<char>, changes: Seq<FlowChange>, seq: u64) -> Seq<FlowRecord> {
    Seq::new(changes.len(), |i: int| FlowRecord { symbol, change: changes[i], sequence: (seq + i + 1) as u64 })
}

struct BookSnapshot {
    symbol: String,
    bids: BookSide,
    asks: BookSide,
    best_bid: Option<Decimal>,
    best_ask: Option<Decimal>,
}

impl BookSnapshot {
    spec fn snap_view(&self) -> SnapshotView {
        SnapshotView { bids: self.bids@, asks: self.asks@, best_bid: self.best_bid, best_ask: self.best_ask }
    }
}

/// Builds the snapshot of a book.
fn create_snapshot(book: &OrderBook, depth: usize) -> (s: BookSnapshot)
    ensures
        s.symbol@ == book.symbol@,
        s.snap_view() == snapshot_of(book, depth),
{
    let nb = book.bids.len();
    let kb = if depth < nb { depth } else { nb };
    let mut bids: Vec<Entry> = Vec::new();
    let mut i: usize = nb - kb;
    proof {
        use_type_invariant(&book.bids);
        use_type_invariant(&book.asks);
    }
    while i < nb
        invariant
            nb == book.bids@.len(),
            kb <= nb,
            nb - kb <= i <= nb,
            kb == top_count(book.bids@, depth as int),
            bids@ =~= snap_entries(book.bids@.subrange(nb - kb, i as int)),
        decreases nb - i,
    {
        let e = book.bids.entry(i);
        bids.push((e.0, PriceLevel { price: e.0, volume: e.1.volume, timestamp: e.1.timestamp }));
        i = i + 1;
        assert(bids@ =~= snap_entries(book.bids@.subrange(nb - kb, i as int)));
    }
    let na = book.asks.len();
    let ka = if depth < na { depth } else { na };
    let mut asks: Vec<Entry> = Vec::new();
    let mut j: usize = 0;
    while j < ka
        invariant
            na == book.asks@.len(),
            ka <= na,
            j <= ka,
            ka == top_count(book.asks@, depth as int),
            asks@ =~= snap_entries(book.asks@.take(j as int)),
        decreases ka - j,
    {
        let e = book.asks.entry(j);
        asks.push((e.0, PriceLevel { price: e.0, volume: e.1.volume, timestamp: e.1.timestamp }));
        j = j + 1;
        assert(asks@ =~= snap_entries(book.asks@.take(j as int)));
    }
    proof {
        use_type_invariant(&book.bids);
        use_type_invariant(&book.asks);
    }
    assert(ascending(bids@)) by {
        assert forall|a: int, b: int| 0 <= a < b < bids@.len() implies units(#[trigger] bids@[a].0) < units(
            #[trigger] bids@[b].0,
        ) by {
            assert(bids@[a].0 == book.bids@[nb - kb + a].0);
            assert(bids@[b].0 == book.bids@[nb - kb + b].0);
            assert(units(book.bids@[nb - kb + a].0) < units(book.bids@[nb - kb + b].0));
        }
    }
    assert(ascending(asks@)) by {
        assert forall|a: int, b: int| 0 <= a < b < asks@.len() implies units(#[trigger] asks@[a].0) < units(
            #[trigger] asks@[b].0,
        ) by {
            assert(asks@[a].0 == book.asks@[a].0);
            assert(asks@[b].0 == book.asks@[b].0);
            assert(units(book.asks@[a].0) < units(book.asks@[b].0));
        }
    }
    let best_bid = match book.bids.last() {
        Some(e) => Some(e.0),
        None => None,
    };
    let best_ask = match book.asks.first() {
        Some(e) => Some(e.0),
        None => None,
    };
    BookSnapshot {
        symbol: book.symbol.clone(),
        bids: BookSide::from_sorted(bids),
        asks: BookSide::from_sorted(asks),
        best_bid,
        best_ask,
    }
}

/// Detects liquidity changes between successive books of each symbol.
pub struct OrderFlowTracker {
    config: OrderFlowConfig,
    previous: Vec<BookSnapshot>,
    history: VecDeque<FlowEvent>,
    sequence: u64,
}

/// Whether `i` is the first slot of a symbol among the snapshots.
pub open spec fn is_first_symbol(names: Seq<Seq<char>>, symbol: Seq<char>, i: int) -> bool {
    &&& 0 <= i < names.len()
    &&& names[i] == symbol
    &&& forall|j: int| 0 <= j < i ==> #[trigger] names[j] != symbol
}

impl OrderFlowTracker {
    /// The configuration.
    pub closed spec fn cfg(&self) -> OrderFlowConfig {
        self.config
    }

    /// The symbols with a snapshot.
    pub closed spec fn symbols(&self) -> Seq<Seq<char>> {
        self.previous@.map_values(|b: BookSnapshot| b.symbol@)
    }

    /// The snapshots, in the order of `symbols`.
    pub closed spec fn snapshots(&self) -> Seq<SnapshotView> {
        self.previous@.map_values(|b: BookSnapshot| b.snap_view())
    }

    /// The events kept, oldest first.
    pub closed spec fn history(&self) -> Seq<FlowRecord> {
        records(self.history@)
    }

    /// The last sequence number handed out.
    pub closed spec fn sequence(&self) -> u64 {
        self.sequence
    }

    /// The history holds at most `max_history` events.
    pub closed spec fn wf(&self) -> bool {
        self.history@.len() <= self.config.max_history
    }

    /// The previous snapshot of a symbol, if any.
    pub open spec fn previous_of(&self, symbol: Seq<char>) -> Option<SnapshotView> {
        if exists|i: int| is_first_symbol(self.symbols(), symbol, i) {
            Some(self.snapshots()[choose|i: int| is_first_symbol(self.symbols(), symbol, i)])
        } else {
            None
        }
    }

    /// The changes a book brings against the symbol's previous snapshot (none
    /// for a first book); `None` on overflow.
    pub open spec fn changes_for(&self, book: &OrderBook) -> Option<Seq<FlowChange>> {
        match self.previous_of(book.symbol@) {
            Some(p) => flow_changes(p, snapshot_of(book, self.cfg().track_depth), self.cfg()),
            None => Some(Seq::empty()),
        }
    }

    /// Whether a book can be tracked: its changes compute and can be numbered.
    pub open spec fn can_track(&self, book: &OrderBook) -> bool {
        &&& self.changes_for(book) is Some
        &&& self.sequence() + self.changes_for(book).unwrap().len() <= u64::MAX
    }

    /// The size events of tracking a book agree with the volumes they report:
    /// a size increase is emitted only where the current volume exceeds the
    /// previous one and carries current − previous; a size decrease only
    /// where it does not exceed it, carrying the magnitude of the difference.
    pub proof fn law_size_events_follow_volumes(&self, book: &OrderBook)
        requires
            self.changes_for(book) is Some,
        ensures
            forall|i: int|
                0 <= i < self.changes_for(book).unwrap().len() ==> size_event_follows_volumes(
                    #[trigger] self.changes_for(book).unwrap()[i],
                ),
    {
        if let Some(p) = self.previous_of(book.symbol@) {
            lemma_flow_changes_follow(p, snapshot_of(book, self.cfg().track_depth), self.cfg());
        }
    }

    /// A tracker with the default configuration.
    pub fn new() -> (t: Self)
        ensures
            t.wf(),
            t.symbols().len() == 0,
            t.history().len() == 0,
            t.sequence() == 0,
    {
        Self::with_config(OrderFlowConfig::default())
    }

    /// A tracker with the given configuration.
    pub fn with_config(config: OrderFlowConfig) -> (t: Self)
        ensures
            t.wf(),
            t.cfg() == config,
            t.symbols().len() == 0,
            t.history().len() == 0,
            t.sequence() == 0,
    {
        let t = OrderFlowTracker { config, previous: Vec::new(), history: VecDeque::new(), sequence: 0 };
        assert(t.symbols().len() == 0);
        assert(t.history().len() == 0);
        t
    }

    fn find(&self, symbol: &String) -> (r: Option<usize>)
        ensures
            match r {
                Some(i) => is_first_symbol(self.symbols(), symbol@, i as int),
                None => forall|i: int| 0 <= i < self.symbols().len() ==> #[trigger] self.symbols()[i] != symbol@,
            },
    {
        let mut i: usize = 0;
        while i < self.previous.len()
            invariant
                i <= self.previous@.len(),
                forall|j: int| 0 <= j < i ==> #[trigger] self.symbols()[j] != symbol@,
            decreases self.previous@.len() - i,
        {
            assert(self.symbols()[i as int] == self.previous@[i as int].symbol@);
            if self.previous[i].symbol == *symbol {
                return Some(i);
            }
            i = i + 1;
        }
        None
    }

    /// Whether a book can be tracked without an overflow.
    pub fn trackable(&self, book: &OrderBook) -> (b: bool)
        ensures
            b == self.can_track(book),
    {
        let snap = create_snapshot(book, self.config.track_depth);
        let n: usize = match self.find(&book.symbol) {
            Some(i) => {
                proof {
                    lemma_first_symbol(self.symbols(), book.symbol@, i as int);
                }
                let p = &self.previous[i];
                assert(p.snap_view() == self.snapshots()[i as int]);
                match (
                    changes_of_side(&p.bids, &snap.bids, FlowSide::Bid, &self.config),
                    changes_of_side(&p.asks, &snap.asks, FlowSide::Ask, &self.config),
                ) {
                    (Some(_), Some(_)) => self.changes_exact(book, &snap).len(),
                    _ => return false,
                }
            },
            None => self.changes_exact(book, &snap).len(),
        };
        n as u128 <= (u64::MAX - self.sequence) as u128
    }

    /// The changes of a book against its symbol's previous snapshot.
    fn changes_exact(&self, book: &OrderBook, snap: &BookSnapshot) -> (r: Vec<FlowChange>)
        requires
            self.changes_for(book) is Some,
            snap.snap_view() == snapshot_of(book, self.cfg().track_depth),
        ensures
            r@ == self.changes_for(book).unwrap(),
    {
        match self.find(&book.symbol) {
            Some(i) => {
                proof {
                    lemma_first_symbol(self.symbols(), book.symbol@, i as int);
                }
                let p = &self.previous[i];
                assert(p.snap_view() == self.snapshots()[i as int]);
                let mut out = changes_of_side(&p.bids, &snap.bids, FlowSide::Bid, &self.config).unwrap();
                let mut a = changes_of_side(&p.asks, &snap.asks, FlowSide::Ask, &self.config).unwrap();
                let mut bb = best_change_of(p.best_bid, snap.best_bid, FlowSide::Bid);
                let mut ba = best_change_of(p.best_ask, snap.best_ask, FlowSide::Ask);
                let ghost sb = out@;
                out.append(&mut a);
                out.append(&mut bb);
                out.append(&mut ba);
                assert(out@ =~= self.changes_for(book).unwrap());
                out
            },
            None => {
                proof {
                    if exists|k: int| is_first_symbol(self.symbols(), book.symbol@, k) {
                        let k = choose|k: int| is_first_symbol(self.symbols(), book.symbol@, k);
                        assert(self.symbols()[k] != book.symbol@);
                    }
                }
                let v: Vec<FlowChange> = Vec::new();
                assert(v@ =~= Seq::<FlowChange>::empty());
                v
            },
        }
    }

    /// Tracks a book: compares it with the symbol's previous snapshot (no
    /// events for a first book), numbers the changes as events, keeps the
    /// newest `max_history` events, and stores the book's snapshot.
    pub fn track_update(&mut self, book: &OrderBook) -> (r: Vec<FlowEvent>)
        requires
            old(self).wf(),
            old(self).can_track(book),
        ensures
            final(self).wf(),
            ({
                let changes = old(self).changes_for(book).unwrap();
                let recs = numbered(book.symbol@, changes, old(self).sequence());
                &&& records(r@) == recs
                &&& final(self).sequence() == old(self).sequence() + changes.len()
                &&& final(self).history() == keep_last(old(self).history() + recs, old(self).cfg().max_history as nat)
                &&& final(self).previous_of(book.symbol@) == Some(snapshot_of(book, old(self).cfg().track_depth))
                &&& final(self).cfg() == old(self).cfg()
            }),
    {
        let snap = create_snapshot(book, self.config.track_depth);
        let changes = self.changes_exact(book, &snap);
        let ghost old_self = *self;
        let ghost sv = snap.snap_view();
        self.store_snapshot(snap);
        let ghost recs0 = records(self.history@);
        let mut events: Vec<FlowEvent> = Vec::new();
        let mut k: usize = 0;
        while k < changes.len()
            invariant
                k <= changes@.len(),
                self.wf(),
                self.config == old_self.config,
                self.previous_of(book.symbol@) == Some(sv),
                self.sequence == old_self.sequence + k,
                old_self.sequence + changes@.len() <= u64::MAX,
                records(events@) == numbered(book.symbol@, changes@.take(k as int), old_self.sequence),
                records(self.history@) == keep_last(
                    recs0 + numbered(book.symbol@, changes@.take(k as int), old_self.sequence),
                    self.config.max_history as nat,
                ),
            decreases changes@.len() - k,
        {
            let ghost before_events = events@;
            let ghost syms = self.symbols();
            let ghost snaps = self.snapshots();
            self.sequence = self.sequence + 1;
            let c = changes[k];
            let e = FlowEvent {
                symbol: book.symbol.clone(),
                price: c.price,
                side: c.side,
                event_type: c.event_type,
                current_volume: c.current_volume,
                previous_volume: c.previous_volume,
                timestamp: utc_now_micros(),
                sequence: self.sequence,
            };
            let ghost rec = e@;
            let ghost next = numbered(book.symbol@, changes@.take(k + 1), old_self.sequence);
            assert(next =~= numbered(book.symbol@, changes@.take(k as int), old_self.sequence).push(rec));
            let ghost prev_before = self.previous;
            self.record(e.duplicate());
            assert(self.previous == prev_before);
            assert(self.symbols() =~= syms);
            assert(self.snapshots() =~= snaps);
            assert(self.previous_of(book.symbol@) == Some(sv));
            proof {
                lemma_keep_last_push(
                    recs0 + numbered(book.symbol@, changes@.take(k as int), old_self.sequence),
                    rec,
                    self.config.max_history as nat,
                );
                assert(recs0 + next =~= (recs0 + numbered(book.symbol@, changes@.take(k as int), old_self.sequence)).push(
                    rec,
                ));
            }
            events.push(e);
            assert(records(events@) =~= records(before_events).push(rec));
            k = k + 1;
        }
        assert(changes@.take(changes@.len() as int) =~= changes@);
        events
    }

    /// Stores the snapshot of a symbol, replacing the previous one.
    fn store_snapshot(&mut self, snap: BookSnapshot)
        ensures
            final(self).wf() == old(self).wf(),
            final(self).config == old(self).config,
            final(self).sequence == old(self).sequence,
            final(self).history == old(self).history,
            final(self).previous_of(snap.symbol@) == Some(snap.snap_view()),
    {
        let ghost s0 = *self;
        let ghost sv = snap.snap_view();
        let ghost sym = snap.symbol@;
        match self.find(&snap.symbol) {
            Some(i) => {
                self.previous.set(i, snap);
                assert(self.symbols() =~= s0.symbols());
                assert(self.snapshots() =~= s0.snapshots().update(i as int, sv));
                proof {
                    lemma_first_symbol(self.symbols(), sym, i as int);
                }
            },
            None => {
                self.previous.push(snap);
                assert(self.symbols() =~= s0.symbols().push(sym));
                assert(self.snapshots() =~= s0.snapshots().push(sv));
                let ghost n = (self.previous@.len() - 1) as int;
                assert(is_first_symbol(self.symbols(), sym, n));
                proof {
                    lemma_first_symbol(self.symbols(), sym, n);
                }
            },
        }
    }

    /// Appends an event to the history, dropping the oldest beyond `max_history`.
    fn record(&mut self, e: FlowEvent)
        requires
            old(self).wf(),
        ensures
            final(self).wf(),
            final(self).config == old(self).config,
            final(self).sequence == old(self).sequence,
            final(self).previous == old(self).previous,
            records(final(self).history@) == keep_last(records(old(self).history@).push(e@), old(self).config.max_history as nat),
    {
        let ghost t = records(self.history@).push(e@);
        self.history.push_back(e);
        assert(records(self.history@) =~= t);
        if self.history.len() > self.config.max_history {
            let ghost h = self.history@;
            let _ = self.history.pop_front();
            assert(records(self.history@) =~= records(h).subrange(1, h.len() as int));
            assert(records(self.history@) =~= keep_last(t, self.config.max_history as nat));
        }
    }
}

/// Keeping the last `n` after each push keeps the last `n` of everything.
proof fn lemma_keep_last_push<A>(s: Seq<A>, x: A, n: nat)
    ensures
        keep_last(keep_last(s, n).push(x), n) == keep_last(s.push(x), n),
{
    assert(keep_last(keep_last(s, n).push(x), n) =~= keep_last(s.push(x), n));
}

proof fn lemma_first_symbol(names: Seq<Seq<char>>, symbol: Seq<char>, i: int)
    requires
        is_first_symbol(names, symbol, i),
    ensures
        (choose|k: int| is_first_symbol(names, symbol, k)) == i,
{
    let k = choose|k: int| is_first_symbol(names, symbol, k);
    assert(is_first_symbol(names, symbol, k));
    if k < i {
        assert(names[k] != symbol);
    } else if i < k {
        assert(names[i] != symbol);
    }
}

impl OrderFlowTracker {
    /// The newest `limit` events, newest first.
    pub fn get_recent_events(&self, limit: usize) -> (r: Vec<FlowEvent>)
        ensures
            records(r@) == newest(self.history(), limit as int, |x: FlowRecord| true),
    {
        self.pick_events(limit, 0, None)
    }

    /// The newest `limit` events of a symbol, newest first.
    pub fn get_events_for_symbol(&self, symbol: &str, limit: usize) -> (r: Vec<FlowEvent>)
        ensures
            records(r@) == newest(self.history(), limit as int, |x: FlowRecord| x.symbol == symbol@),
    {
        self.pick_events(limit, 1, Some(symbol))
    }

    /// The newest `limit` large-order events (appeared or disappeared), newest first.
    pub fn get_large_order_events(&self, limit: usize) -> (r: Vec<FlowEvent>)
        ensures
            records(r@) == newest(self.history(), limit as int, |x: FlowRecord| is_large(x.change.event_type)),
    {
        self.pick_events(limit, 2, None)
    }

    /// Walks the history from the newest event, keeping up to `limit` events
    /// that match: all (`mode` 0), the symbol's (`mode` 1), large orders (`mode` 2).
    fn pick_events(&self, limit: usize, mode: u8, symbol: Option<&str>) -> (r: Vec<FlowEvent>)
        requires
            mode <= 2,
            mode == 1 ==> symbol is Some,
        ensures
            records(r@) == newest(self.history(), limit as int, pick_filter(mode, symbol)),
    {
        let ghost f = pick_filter(mode, symbol);
        let key = match symbol {
            Some(s) => s.to_string(),
            None => String::new(),
        };
        let n = self.history.len();
        let mut out: Vec<FlowEvent> = Vec::new();
        let mut i: usize = n;
        assert(self.history().take(n as int) =~= self.history());
        assert(records(out@) + newest(self.history().take(n as int), limit - out@.len(), f) =~= newest(
            self.history(),
            limit as int,
            f,
        ));
        while i > 0 && out.len() < limit
            invariant
                f == pick_filter(mode, symbol),
                i <= n,
                n == self.history@.len(),
                mode <= 2,
                mode == 1 ==> symbol is Some && key@ == symbol.unwrap()@,
                out@.len() <= limit,
                newest(self.history(), limit as int, f) == records(out@) + newest(
                    self.history().take(i as int),
                    limit - out@.len(),
                    f,
                ),
            decreases i,
        {
            let e = &self.history[i - 1];
            let ghost rec = e@;
            assert(self.history().take(i as int).last() == rec);
            assert(self.history().take(i as int).drop_last() =~= self.history().take(i - 1));
            let keep = if mode == 0 {
                true
            } else if mode == 1 {
                e.symbol == key
            } else {
                match e.event_type {
                    FlowEventType::LargeOrderAppeared => true,
                    FlowEventType::LargeOrderDisappeared => true,
                    _ => false,
                }
            };
            assert(keep == f(rec)) by {
                if mode == 1 {
                    assert(f(rec) == (rec.symbol == symbol.unwrap()@));
                } else if mode == 2 {
                    assert(f(rec) == is_large(rec.change.event_type));
                }
            }
            if keep {
                let ghost before = out@;
                out.push(e.duplicate());
                assert(records(out@) =~= records(before).push(rec));
            }
            i = i - 1;
        }
        proof {
            if i == 0 {
                assert(self.history().take(0) =~= Seq::<FlowRecord>::empty());
            }
        }
        assert(records(out@) + Seq::<FlowRecord>::empty() =~= records(out@));
        out
    }

    /// Forgets the snapshot of a symbol: its next book starts afresh.
    pub fn clear_symbol(&mut self, symbol: &str)
        requires
            old(self).wf(),
        ensures
            final(self).wf(),
            final(self).previous_of(symbol@) is None,
            final(self).history() == old(self).history(),
            final(self).sequence() == old(self).sequence(),
            final(self).cfg() == old(self).cfg(),
    {
        let key = symbol.to_string();
        let mut kept: Vec<BookSnapshot> = Vec::new();
        let mut i: usize = 0;
        let ghost old_prev = self.previous@;
        while i < self.previous.len()
            invariant
                i <= self.previous@.len(),
                key@ == symbol@,
                self.previous@ == old_prev,
                forall|j: int| 0 <= j < kept@.len() ==> #[trigger] kept@[j].symbol@ != symbol@,
            decreases self.previous@.len() - i,
        {
            if self.previous[i].symbol != key {
                let p = &self.previous[i];
                kept.push(
                    BookSnapshot {
                        symbol: p.symbol.clone(),
                        bids: p.bids.copy(),
                        asks: p.asks.copy(),
                        best_bid: p.best_bid,
                        best_ask: p.best_ask,
                    },
                );
            }
            i = i + 1;
        }
        self.previous = kept;
        proof {
            if exists|k: int| is_first_symbol(self.symbols(), symbol@, k) {
                let k = choose|k: int| is_first_symbol(self.symbols(), symbol@, k);
                assert(self.symbols()[k] == self.previous@[k].symbol@);
            }
        }
    }

    /// Forgets every snapshot and the event history.
    pub fn clear_all(&mut self)
        ensures
            final(self).wf(),
            final(self).symbols().len() == 0,
            final(self).history().len() == 0,
            final(self).sequence() == old(self).sequence(),
            final(self).cfg() == old(self).cfg(),
    {
        self.previous = Vec::new();
        self.history = VecDeque::new();
        assert(self.symbols().len() == 0);
        assert(self.history().len() == 0);
    }
}

impl Default for OrderFlowTracker {
    fn default() -> (t: Self)
        ensures
            t.wf(),
            t.symbols().len() == 0,
            t.history().len() == 0,
    {
        OrderFlowTracker::new()
    }
}

/// Whether an event is a large order appearing or disappearing.
pub open spec fn is_large(t: FlowEventType) -> bool {
    t is LargeOrderAppeared || t is LargeOrderDisappeared
}

/// The filter of an event walk.
pub open spec fn pick_filter(mode: u8, symbol: Option<&str>) -> spec_fn(FlowRecord) -> bool {
    if mode == 0 {
        |x: FlowRecord| true
    } else if mode == 1 {
        |x: FlowRecord| x.symbol == symbol.unwrap()@
    } else {
        |x: FlowRecord| is_large(x.change.event_type)
    }
}

/// Up to `limit` records of `h` that pass `f`, newest first.
pub open spec fn newest(h: Seq<FlowRecord>, limit: int, f: spec_fn(FlowRecord) -> bool) -> Seq<FlowRecord>
    decreases h.len(),
{
    if h.len() == 0 || limit <= 0 {
        Seq::empty()
    } else if f(h.last()) {
        seq![h.last()] + newest(h.drop_last(), limit - 1, f)
    } else {
        newest(h.drop_last(), limit, f)
    }
}

// ---------------------------------------------------------------------------
// Trades by price level
// ---------------------------------------------------------------------------

/// Configuration for trade tracking by price level.
#[derive(Debug, Clone, Copy)]
pub struct TradeOverlayConfig {
    /// Maximum trades to keep per price level
    pub max_trades_per_level: usize,
    /// Maximum price levels to track
    pub max_levels: usize,
    /// Time window for trade aggregation (seconds)
    pub aggregation_window_secs: u64,
    /// Price rounding for level matching (tick size)
    pub price_precision: Option<Decimal>,
}

impl Default for TradeOverlayConfig {
    fn default() -> (c: Self)
        ensures
            c.max_trades_per_level == 50,
            c.max_levels == 100,
            c.aggregation_window_secs == 60,
            c.price_precision is None,
    {
        TradeOverlayConfig { max_trades_per_level: 50, max_levels: 100, aggregation_window_secs: 60, price_precision: None }
    }
}

/// A recent trade at a price level.
#[derive(Debug)]
pub struct LevelTrade {
    pub trade_id: String,
    pub price: Decimal,
    pub volume: Decimal,
    pub side: TradeSide,
    /// Microseconds since the Unix epoch (UTC)
    pub timestamp: i64,
    /// Age in milliseconds (for fade effects)
    pub age_ms: u64,
}

/// What a level trade records.
pub struct TradeRecord {
    pub trade_id: Seq<char>,
    pub price: Decimal,
    pub volume: Decimal,
    pub side: TradeSide,
    pub timestamp: i64,
}

impl View for LevelTrade {
    type V = TradeRecord;

    open spec fn view(&self) -> TradeRecord {
        TradeRecord {
            trade_id: self.trade_id@,
            price: self.price,
            volume: self.volume,
            side: self.side,
            timestamp: self.timestamp,
        }
    }
}

impl LevelTrade {
    /// A copy of the trade with the given age.
    pub fn aged(&self, age_ms: u64) -> (t: Self)
        ensures
            t@ == self@,
            t.age_ms == age_ms,
    {
        LevelTrade {
            trade_id: self.trade_id.clone(),
            price: self.price,
            volume: self.volume,
            side: self.side,
            timestamp: self.timestamp,
            age_ms,
        }
    }
}

/// The age in whole milliseconds of a time at `now`, zero for a future time.
pub open spec fn age_ms_of(now: i64, t: i64) -> u64 {
    if now > t {
        ((now - t) / 1000) as u64
    } else {
        0
    }
}

/// Computes `age_ms_of`.
fn age_ms(now: i64, t: i64) -> (r: u64)
    ensures
        r == age_ms_of(now, t),
{
    if now > t {
        let d = (now as i128) - (t as i128);
        ((d / 1000) as u64)
    } else {
        0
    }
}

/// Aggregated trade statistics at a price level.
#[derive(Debug)]
pub struct LevelTradeStats {
    pub price: Decimal,
    /// Total volume traded at this level
    pub total_volume: Decimal,
    /// Number of trades
    pub trade_count: usize,
    /// Buy volume
    pub buy_volume: Decimal,
    /// Sell volume
    pub sell_volume: Decimal,
    /// Most recent trade
    pub last_trade: Option<LevelTrade>,
    /// Average trade size
    pub avg_trade_size: Decimal,
    /// Time of first trade in window
    pub first_trade_time: Option<i64>,
    /// Time of last trade in window
    pub last_trade_time: Option<i64>,
}

/// The trades of one price level.
struct TradeLevel {
    price: Decimal,
    trades: VecDeque<LevelTrade>,
}

/// The price levels of one symbol, lowest price first.
struct SymbolTrades {
    symbol: String,
    levels: Vec<TradeLevel>,
}

/// What a level holds: its price and its trades, oldest first.
pub type LevelView = (Decimal, Seq<TradeRecord>);

spec fn level_view(l: TradeLevel) -> LevelView {
    (l.price, l.trades@.map_values(|t: LevelTrade| t@))
}

spec fn levels_view(v: Seq<TradeLevel>) -> Seq<LevelView> {
    v.map_values(|l: TradeLevel| level_view(l))
}

/// Whether levels are in strictly increasing price order.
pub open spec fn levels_ascending(s: Seq<LevelView>) -> bool {
    forall|i: int, j: int| 0 <= i < j < s.len() ==> units(#[trigger] s[i].0) < units(#[trigger] s[j].0)
}

/// Where a level of price value `k` belongs.
pub open spec fn level_pos(s: Seq<LevelView>, k: int) -> int
    decreases s.len(),
{
    if s.len() == 0 || units(s[0].0) >= k {
        0
    } else {
        1 + level_pos(s.drop_first(), k)
    }
}

/// The price level a trade is filed under: its price, or the price rounded
/// down to the tick when a non-zero tick is configured; `None` on overflow.
pub open spec fn trade_bucket(price: Decimal, tick: Option<Decimal>) -> Option<Decimal> {
    match tick {
        Some(t) => if dec_mantissa(t) != 0 {
            match dec_div(price, t) {
                Some(q) => dec_mul(dec_floor(q), t),
                None => None,
            }
        } else {
            Some(price)
        },
        None => Some(price),
    }
}

/// The levels after filing a trade at `key`: appended to the level's trades
/// (a new level when the price is new), keeping the newest `max_per` trades.
pub open spec fn file_trade(s: Seq<LevelView>, key: Decimal, rec: TradeRecord, max_per: nat) -> Seq<LevelView> {
    let p = level_pos(s, units(key));
    if found_level(s, key, p) {
        s.update(p, (s[p].0, keep_last(s[p].1.push(rec), max_per)))
    } else {
        s.insert(p, (key, keep_last(seq![rec], max_per)))
    }
}

/// The time a level is ranked by for eviction: its newest trade's, if any.
pub open spec fn last_time(l: LevelView) -> Option<i64> {
    if l.1.len() > 0 { Some(l.1.last().timestamp) } else { None }
}

/// Whether level time `a` ranks before `b` (no trade ranks first).
pub open spec fn time_lt(a: Option<i64>, b: Option<i64>) -> bool {
    match (a, b) {
        (None, Some(_)) => true,
        (Some(x), Some(y)) => x < y,
        _ => false,
    }
}

/// Whether `i` is the first level with the oldest newest trade.
pub open spec fn is_oldest(s: Seq<LevelView>, i: int) -> bool {
    &&& 0 <= i < s.len()
    &&& forall|j: int| 0 <= j < s.len() ==> !time_lt(#[trigger] last_time(s[j]), last_time(s[i]))
    &&& forall|j: int| 0 <= j < i ==> time_lt(last_time(s[i]), #[trigger] last_time(s[j]))
}

/// The levels after dropping the level with the oldest newest trade, while
/// there are more than `max_levels`.
pub open spec fn evicted(s: Seq<LevelView>, max_levels: nat) -> Seq<LevelView> {
    if s.len() > max_levels {
        s.remove(choose|i: int| is_oldest(s, i))
    } else {
        s
    }
}

/// Whether level time `a` ranks before `b`.
fn time_before(a: Option<i64>, b: Option<i64>) -> (r: bool)
    ensures
        r == time_lt(a, b),
{
    match (a, b) {
        (None, Some(_)) => true,
        (Some(x), Some(y)) => x < y,
        _ => false,
    }
}

/// Computes `trade_bucket`.
fn bucket_for(price: &Decimal, tick: Option<Decimal>) -> (r: Option<Decimal>)
    ensures
        r == trade_bucket(*price, tick),
{
    match tick {
        Some(t) => {
            if !dec_is_zero(&t) {
                match checked_div(price, &t) {
                    Some(q) => checked_mul(&floor(&q), &t),
                    None => None,
                }
            } else {
                Some(*price)
            }
        },
        None => Some(*price),
    }
}

proof fn lemma_oldest_unique(s: Seq<LevelView>, i: int, k: int)
    requires
        is_oldest(s, i),
        is_oldest(s, k),
    ensures
        i == k,
{
    if i < k {
        assert(time_lt(last_time(s[k]), last_time(s[i])));
        assert(!time_lt(last_time(s[k]), last_time(s[i])));
    } else if k < i {
        assert(time_lt(last_time(s[i]), last_time(s[k])));
        assert(!time_lt(last_time(s[i]), last_time(s[k])));
    }
}

proof fn lemma_level_pos(s: Seq<LevelView>, k: int, p: int)
    requires
        levels_ascending(s),
        0 <= p <= s.len(),
        forall|j: int| 0 <= j < p ==> units(#[trigger] s[j].0) < k,
        p == s.len() || units(s[p].0) >= k,
    ensures
        level_pos(s, k) == p,
    decreases p,
{
    if p > 0 {
        let t = s.drop_first();
        assert forall|j: int| 0 <= j < p - 1 implies units(#[trigger] t[j].0) < k by {
            assert(t[j] == s[j + 1]);
        }
        if p - 1 < t.len() {
            assert(t[p - 1] == s[p]);
        }
        assert(levels_ascending(t)) by {
            assert forall|a: int, b: int| 0 <= a < b < t.len() implies units(#[trigger] t[a].0) < units(#[trigger] t[b].0) by {
                assert(t[a] == s[a + 1] && t[b] == s[b + 1]);
            }
        }
        lemma_level_pos(t, k, p - 1);
    }
}

/// Whether a symbol's levels are in price order and within their bounds.
pub open spec fn levels_ok(s: Seq<LevelView>, cfg: TradeOverlayConfig) -> bool {
    &&& levels_ascending(s)
    &&& s.len() <= cfg.max_levels
    &&& forall|j: int| 0 <= j < s.len() ==> (#[trigger] s[j]).1.len() <= cfg.max_trades_per_level
}

/// Files a trade in a symbol's levels and evicts a level beyond the bound.
fn file_in_levels(levels: &mut Vec<TradeLevel>, key: Decimal, t: LevelTrade, cfg: &TradeOverlayConfig)
    requires
        levels_ok(levels_view(old(levels)@), *cfg),
    ensures
        levels_ok(levels_view(final(levels)@), *cfg),
        levels_view(final(levels)@) == evicted(
            file_trade(levels_view(old(levels)@), key, t@, cfg.max_trades_per_level as nat),
            cfg.max_levels as nat,
        ),
{
    let ghost s0 = levels_view(levels@);
    let ghost rec = t@;
    let mut p: usize = 0;
    while p < levels.len() && dec_lt(&levels[p].price, &key)
        invariant
            p <= levels@.len(),
            s0 == levels_view(levels@),
            forall|j: int| 0 <= j < p ==> units(#[trigger] s0[j].0) < units(key),
        decreases levels@.len() - p,
    {
        p = p + 1;
    }
    proof {
        lemma_level_pos(s0, units(key), p as int);
    }
    let ghost filed = file_trade(s0, key, rec, cfg.max_trades_per_level as nat);
    if p < levels.len() && dec_eq(&levels[p].price, &key) {
        let mut lvl = levels.remove(p);
        let ghost tv0 = lvl.trades@.map_values(|x: LevelTrade| x@);
        lvl.trades.push_back(t);
        assert(lvl.trades@.map_values(|x: LevelTrade| x@) =~= tv0.push(rec));
        if lvl.trades.len() > cfg.max_trades_per_level {
            let ghost h = lvl.trades@;
            let _ = lvl.trades.pop_front();
            assert(lvl.trades@.map_values(|x: LevelTrade| x@) =~= h.map_values(|x: LevelTrade| x@).subrange(1, h.len() as int));
        }
        assert(lvl.trades@.map_values(|x: LevelTrade| x@) =~= keep_last(tv0.push(rec), cfg.max_trades_per_level as nat));
        levels.insert(p, lvl);
        assert(levels_view(levels@) =~= filed);
    } else {
        let mut dq: VecDeque<LevelTrade> = VecDeque::new();
        dq.push_back(t);
        if dq.len() > cfg.max_trades_per_level {
            let _ = dq.pop_front();
        }
        assert(dq@.map_values(|x: LevelTrade| x@) =~= keep_last(seq![rec], cfg.max_trades_per_level as nat));
        levels.insert(p, TradeLevel { price: key, trades: dq });
        assert(levels_view(levels@) =~= filed);
    }
    assert(levels_ascending(filed)) by {
        let p2 = p as int;
        assert forall|a: int, b: int| 0 <= a < b < filed.len() implies units(#[trigger] filed[a].0) < units(#[trigger] filed[b].0) by {
            if found_level(s0, key, p2) {
                assert(filed[a].0 == s0[a].0 && filed[b].0 == s0[b].0);
            } else {
                if b < p2 {
                    assert(filed[a] == s0[a] && filed[b] == s0[b]);
                } else if b == p2 {
                    assert(filed[a] == s0[a]);
                } else if a < p2 {
                    assert(filed[a] == s0[a] && filed[b] == s0[b - 1]);
                } else if a == p2 {
                    assert(filed[b] == s0[b - 1]);
                } else {
                    assert(filed[a] == s0[a - 1] && filed[b] == s0[b - 1]);
                }
            }
        }
    }
    assert forall|j: int| 0 <= j < filed.len() implies (#[trigger] filed[j]).1.len() <= cfg.max_trades_per_level by {
        if found_level(s0, key, p as int) {
            if j != p {
                assert(filed[j] == s0[j]);
            }
        } else {
            if j < p {
                assert(filed[j] == s0[j]);
            } else if j > p {
                assert(filed[j] == s0[j - 1]);
            }
        }
    }
    if levels.len() > cfg.max_levels {
        let n = levels.len();
        let mut best: usize = 0;
        let mut j: usize = 1;
        while j < n
            invariant
                n == levels@.len(),
                n > 0,
                filed == levels_view(levels@),
                best < j <= n,
                forall|m: int| 0 <= m < j ==> !time_lt(#[trigger] last_time(filed[m]), last_time(filed[best as int])),
                forall|m: int| 0 <= m < best ==> time_lt(last_time(filed[best as int]), #[trigger] last_time(filed[m])),
            decreases n - j,
        {
            let tj = newest_time(&levels[j]);
            let tb = newest_time(&levels[best]);
            assert(tj == last_time(filed[j as int]));
            assert(tb == last_time(filed[best as int]));
            if time_before(tj, tb) {
                best = j;
            }
            j = j + 1;
        }
        assert(is_oldest(filed, best as int));
        proof {
            let k = choose|k: int| is_oldest(filed, k);
            lemma_oldest_unique(filed, best as int, k);
        }
        let _ = levels.remove(best);
        assert(levels_view(levels@) =~= filed.remove(best as int));
        assert forall|a: int, b: int| 0 <= a < b < levels_view(levels@).len() implies units(
            #[trigger] levels_view(levels@)[a].0,
        ) < units(#[trigger] levels_view(levels@)[b].0) by {
            let r = filed.remove(best as int);
            if b < best {
                assert(r[a] == filed[a] && r[b] == filed[b]);
            } else if a < best {
                assert(r[a] == filed[a] && r[b] == filed[b + 1]);
            } else {
                assert(r[a] == filed[a + 1] && r[b] == filed[b + 1]);
            }
        }
        assert forall|m: int| 0 <= m < levels_view(levels@).len() implies (#[trigger] levels_view(levels@)[m]).1.len()
            <= cfg.max_trades_per_level by {
            let r = filed.remove(best as int);
            if m < best {
                assert(r[m] == filed[m]);
            } else {
                assert(r[m] == filed[m + 1]);
            }
        }
    }
}

/// The time of a level's newest trade.
fn newest_time(l: &TradeLevel) -> (r: Option<i64>)
    ensures
        r == last_time(level_view(*l)),
{
    let n = l.trades.len();
    if n > 0 {
        Some(l.trades[n - 1].timestamp)
    } else {
        None
    }
}

/// Whether the level of `key` exists at `p`.
pub open spec fn found_level(s: Seq<LevelView>, key: Decimal, p: int) -> bool {
    p < s.len() && units(s[p].0) == units(key)
}

/// Tracks recent trades aligned with price levels for overlay visualization.
pub struct TradesByPriceLevel {
    config: TradeOverlayConfig,
    symbols: Vec<SymbolTrades>,
}

impl TradesByPriceLevel {
    /// The configuration.
    pub closed spec fn cfg(&self) -> TradeOverlayConfig {
        self.config
    }

    /// The symbols with trades.
    pub closed spec fn names(&self) -> Seq<Seq<char>> {
        self.symbols@.map_values(|s: SymbolTrades| s.symbol@)
    }

    /// The levels of each symbol, in the order of `names`.
    pub closed spec fn books(&self) -> Seq<Seq<LevelView>> {
        self.symbols@.map_values(|s: SymbolTrades| levels_view(s.levels@))
    }

    /// The levels of a symbol, if it has any trade.
    pub open spec fn levels_of(&self, symbol: Seq<char>) -> Option<Seq<LevelView>> {
        if exists|i: int| is_first_symbol(self.names(), symbol, i) {
            Some(self.books()[choose|i: int| is_first_symbol(self.names(), symbol, i)])
        } else {
            None
        }
    }

    /// Every symbol's levels are in price order, within their bounds.
    pub open spec fn wf(&self) -> bool {
        &&& self.books().len() == self.names().len()
        &&& forall|i: int| 0 <= i < self.books().len() ==> levels_ok(#[trigger] self.books()[i], self.cfg())
    }

    /// A tracker with the default configuration.
    pub fn new() -> (t: Self)
        ensures
            t.wf(),
            t.names().len() == 0,
    {
        Self::with_config(TradeOverlayConfig::default())
    }

    /// A tracker with the given configuration.
    pub fn with_config(config: TradeOverlayConfig) -> (t: Self)
        ensures
            t.wf(),
            t.cfg() == config,
            t.names().len() == 0,
    {
        let t = TradesByPriceLevel { config, symbols: Vec::new() };
        assert(t.names().len() == 0);
        assert(t.books().len() == 0);
        t
    }

    fn find(&self, symbol: &String) -> (r: Option<usize>)
        ensures
            match r {
                Some(i) => is_first_symbol(self.names(), symbol@, i as int),
                None => forall|i: int| 0 <= i < self.names().len() ==> #[trigger] self.names()[i] != symbol@,
            },
    {
        let mut i: usize = 0;
        while i < self.symbols.len()
            invariant
                i <= self.symbols@.len(),
                forall|j: int| 0 <= j < i ==> #[trigger] self.names()[j] != symbol@,
            decreases self.symbols@.len() - i,
        {
            assert(self.names()[i as int] == self.symbols@[i as int].symbol@);
            if self.symbols[i].symbol == *symbol {
                return Some(i);
            }
            i = i + 1;
        }
        None
    }

    /// Whether a trade can be filed without a decimal overflow.
    pub open spec fn can_add(&self, trade: TradeData) -> bool {
        trade_bucket(trade.price, self.cfg().price_precision) is Some
    }

    /// Files a trade under its price level, keeping the newest
    /// `max_trades_per_level` trades per level and, beyond `max_levels`
    /// levels, dropping the level whose newest trade is oldest.
    pub fn add_trade(&mut self, trade: &TradeData)
        requires
            old(self).wf(),
            old(self).can_add(*trade),
        ensures
            final(self).wf(),
            final(self).cfg() == old(self).cfg(),
            final(self).levels_of(trade.symbol@) == Some(
                evicted(
                    file_trade(
                        match old(self).levels_of(trade.symbol@) {
                            Some(l) => l,
                            None => Seq::empty(),
                        },
                        trade_bucket(trade.price, old(self).cfg().price_precision).unwrap(),
                        TradeRecord {
                            trade_id: trade.trade_id@,
                            price: trade.price,
                            volume: trade.volume,
                            side: trade.side,
                            timestamp: trade.timestamp,
                        },
                        old(self).cfg().max_trades_per_level as nat,
                    ),
                    old(self).cfg().max_levels as nat,
                ),
            ),
            forall|sym: Seq<char>| sym != trade.symbol@ ==> #[trigger] final(self).levels_of(sym) == old(self).levels_of(sym),
    {
        let key = bucket_for(&trade.price, self.config.price_precision).unwrap();
        let t = LevelTrade {
            trade_id: trade.trade_id.clone(),
            price: trade.price,
            volume: trade.volume,
            side: trade.side,
            timestamp: trade.timestamp,
            age_ms: 0,
        };
        let ghost m0 = *self;
        let ghost sym = trade.symbol@;
        let si = match self.find(&trade.symbol) {
            Some(i) => {
                proof {
                    lemma_first_symbol(self.names(), sym, i as int);
                }
                i
            },
            None => {
                self.symbols.push(SymbolTrades { symbol: trade.symbol.clone(), levels: Vec::new() });
                assert(self.names() =~= m0.names().push(sym));
                assert(self.symbols@[self.symbols@.len() - 1].levels@ =~= Seq::<TradeLevel>::empty());
                assert(levels_view(Seq::<TradeLevel>::empty()) =~= Seq::<LevelView>::empty());
                assert(self.books() =~= m0.books().push(Seq::<LevelView>::empty()));
                proof {
                    assert(is_first_symbol(self.names(), sym, m0.names().len() as int));
                    lemma_first_symbol(self.names(), sym, m0.names().len() as int);
                    assert(levels_view(Seq::<TradeLevel>::empty()) =~= Seq::<LevelView>::empty());
                }
                self.symbols.len() - 1
            },
        };
        let ghost m1 = *self;
        assert(forall|j: int| 0 <= j < m0.names().len() ==> #[trigger] m1.names()[j] == m0.names()[j]);
        assert(forall|j: int| 0 <= j < m0.books().len() ==> #[trigger] m1.books()[j] == m0.books()[j]);
        assert(m1.books()[si as int] == (match m0.levels_of(sym) {
            Some(l) => l,
            None => Seq::<LevelView>::empty(),
        })) by {
            if m0.levels_of(sym) is None {
                assert(m1.books()[si as int] == Seq::<LevelView>::empty());
            }
        }
        assert(forall|i: int| 0 <= i < m1.books().len() ==> levels_ok(#[trigger] m1.books()[i], m1.cfg())) by {
            assert forall|i: int| 0 <= i < m1.books().len() implies levels_ok(#[trigger] m1.books()[i], m1.cfg()) by {
                if i < m0.books().len() {
                    assert(m1.books()[i] == m0.books()[i]);
                }
            }
        }
        let mut st = self.symbols.remove(si);
        assert(levels_view(st.levels@) == m1.books()[si as int]);
        file_in_levels(&mut st.levels, key, t, &self.config);
        let ghost nl = levels_view(st.levels@);
        self.symbols.insert(si, st);
        assert(self.names() =~= m1.names());
        assert(self.books() =~= m1.books().update(si as int, nl));
        proof {
            lemma_first_symbol(self.names(), sym, si as int);
        }
        assert forall|other: Seq<char>| other != sym implies #[trigger] self.levels_of(other) == m0.levels_of(other) by {
            if exists|i: int| is_first_symbol(m0.names(), other, i) {
                let i = choose|i: int| is_first_symbol(m0.names(), other, i);
                assert(is_first_symbol(self.names(), other, i));
                lemma_first_symbol(self.names(), other, i);
                assert(i != si);
                assert(self.books()[i] == m0.books()[i]);
            } else if exists|i: int| is_first_symbol(self.names(), other, i) {
                let i = choose|i: int| is_first_symbol(self.names(), other, i);
                if i < m0.names().len() {
                    assert forall|j: int| 0 <= j < i implies #[trigger] m0.names()[j] != other by {
                        assert(m1.names()[j] == m0.names()[j]);
                        assert(self.names()[j] != other);
                    }
                    assert(m1.names()[i] == m0.names()[i]);
                    assert(is_first_symbol(m0.names(), other, i));
                }
            }
        }
    }
}

/// The trades at a price level, when the level exists.
pub open spec fn trades_at(levels: Seq<LevelView>, price: Decimal) -> Option<Seq<TradeRecord>> {
    if exists|i: int| 0 <= i < levels.len() && units(#[trigger] levels[i].0) == units(price) {
        Some(levels[choose|i: int| 0 <= i < levels.len() && units(#[trigger] levels[i].0) == units(price)].1)
    } else {
        None
    }
}

/// The trades at or after `cutoff`, oldest first.
pub open spec fn recent(ts: Seq<TradeRecord>, cutoff: int) -> Seq<TradeRecord>
    decreases ts.len(),
{
    if ts.len() == 0 {
        Seq::empty()
    } else {
        let r = recent(ts.drop_last(), cutoff);
        if ts.last().timestamp >= cutoff { r.push(ts.last()) } else { r }
    }
}

/// The total volume of the trades on a side (all sides for `None`), from
/// zero in order; `None` on overflow.
pub open spec fn side_volume(ts: Seq<TradeRecord>, side: Option<TradeSide>) -> Option<Decimal>
    decreases ts.len(),
{
    if ts.len() == 0 {
        Some(zero())
    } else {
        match side_volume(ts.drop_last(), side) {
            Some(t) => if side is None || side == Some(ts.last().side) {
                dec_add(t, ts.last().volume)
            } else {
                Some(t)
            },
            None => None,
        }
    }
}

/// The start of the aggregation window at `now` (microseconds).
pub open spec fn cutoff_of(now: i64, window_secs: u64) -> int {
    now - window_secs * 1_000_000
}

/// What the statistics of a level hold.
pub struct StatsView {
    pub price: Decimal,
    pub total_volume: Decimal,
    pub trade_count: usize,
    pub buy_volume: Decimal,
    pub sell_volume: Decimal,
    pub last_trade: Option<TradeRecord>,
    pub avg_trade_size: Decimal,
    pub first_trade_time: Option<i64>,
    pub last_trade_time: Option<i64>,
}

impl LevelTradeStats {
    /// What the statistics hold.
    pub open spec fn stats_view(&self) -> StatsView {
        StatsView {
            price: self.price,
            total_volume: self.total_volume,
            trade_count: self.trade_count,
            buy_volume: self.buy_volume,
            sell_volume: self.sell_volume,
            last_trade: match self.last_trade {
                Some(t) => Some(t@),
                None => None,
            },
            avg_trade_size: self.avg_trade_size,
            first_trade_time: self.first_trade_time,
            last_trade_time: self.last_trade_time,
        }
    }
}

/// The statistics of the trades of a level in the window: volumes in total
/// and per side, count, average size (zero without trades), newest trade and
/// the times of the first and last; `None` on overflow.
pub open spec fn stats_of(price: Decimal, r: Seq<TradeRecord>) -> Option<StatsView> {
    match (side_volume(r, None), side_volume(r, Some(TradeSide::Buy)), side_volume(r, Some(TradeSide::Sell))) {
        (Some(total), Some(buy), Some(sell)) => {
            let avg = if r.len() > 0 { dec_div(total, dec_of_u64(r.len() as u64)) } else { Some(zero()) };
            match avg {
                Some(a) => Some(
                    StatsView {
                        price,
                        total_volume: total,
                        trade_count: r.len() as usize,
                        buy_volume: buy,
                        sell_volume: sell,
                        last_trade: if r.len() > 0 { Some(r.last()) } else { None },
                        avg_trade_size: a,
                        first_trade_time: if r.len() > 0 { Some(r[0].timestamp) } else { None },
                        last_trade_time: if r.len() > 0 { Some(r.last().timestamp) } else { None },
                    },
                ),
                None => None,
            }
        },
        _ => None,
    }
}

/// The prices of the levels with a trade in the window, lowest first.
pub open spec fn active_prices(levels: Seq<LevelView>, cutoff: int) -> Seq<Decimal>
    decreases levels.len(),
{
    if levels.len() == 0 {
        Seq::empty()
    } else {
        let r = active_prices(levels.drop_last(), cutoff);
        if recent(levels.last().1, cutoff).len() > 0 { r.push(levels.last().0) } else { r }
    }
}

/// The statistics of the given prices' levels, in order, leaving out those
/// that do not compute.
pub open spec fn overlay_of(levels: Option<Seq<LevelView>>, prices: Seq<Decimal>, cutoff: int) -> Seq<StatsView>
    decreases prices.len(),
{
    if prices.len() == 0 {
        Seq::empty()
    } else {
        let r = overlay_of(levels, prices.drop_last(), cutoff);
        let p = prices.last();
        let st = match levels {
            Some(l) => match trades_at(l, p) {
                Some(ts) => stats_of(p, recent(ts, cutoff)),
                None => None,
            },
            None => None,
        };
        match st {
            Some(v) => r.push(v),
            None => r,
        }
    }
}

/// On ascending levels, the level found at `i` is the one `trades_at` returns.
proof fn lemma_trades_at(levels: Seq<LevelView>, price: Decimal, i: int)
    requires
        levels_ascending(levels),
        0 <= i < levels.len(),
        units(levels[i].0) == units(price),
    ensures
        trades_at(levels, price) == Some(levels[i].1),
{
    let k = choose|k: int| 0 <= k < levels.len() && units(#[trigger] levels[k].0) == units(price);
    if k < i {
        assert(units(levels[k].0) < units(levels[i].0));
    } else if i < k {
        assert(units(levels[i].0) < units(levels[k].0));
    }
}

/// The slot of the level at `price`.
fn level_index(levels: &Vec<TradeLevel>, price: &Decimal) -> (r: Option<usize>)
    requires
        levels_ascending(levels_view(levels@)),
    ensures
        match r {
            Some(i) => i < levels@.len() && trades_at(levels_view(levels@), *price) == Some(levels_view(levels@)[i as int].1),
            None => trades_at(levels_view(levels@), *price) is None,
        },
{
    let mut i: usize = 0;
    while i < levels.len()
        invariant
            i <= levels@.len(),
            levels_ascending(levels_view(levels@)),
            forall|j: int| 0 <= j < i ==> units(#[trigger] levels_view(levels@)[j].0) != units(*price),
        decreases levels@.len() - i,
    {
        assert(levels_view(levels@)[i as int].0 == levels@[i as int].price);
        if dec_eq(&levels[i].price, price) {
            proof {
                lemma_trades_at(levels_view(levels@), *price, i as int);
            }
            return Some(i);
        }
        i = i + 1;
    }
    None
}

/// The trades of a level at or after `cutoff`, with their ages at `now`.
fn recent_trades(trades: &VecDeque<LevelTrade>, cutoff: i128, now: i64) -> (r: Vec<LevelTrade>)
    ensures
        r@.map_values(|t: LevelTrade| t@) == recent(trades@.map_values(|t: LevelTrade| t@), cutoff as int),
        forall|j: int| 0 <= j < r@.len() ==> #[trigger] r@[j].age_ms == age_ms_of(now, r@[j].timestamp),
{
    let ghost all = trades@.map_values(|t: LevelTrade| t@);
    let mut out: Vec<LevelTrade> = Vec::new();
    let mut i: usize = 0;
    while i < trades.len()
        invariant
            i <= trades@.len(),
            all == trades@.map_values(|t: LevelTrade| t@),
            out@.map_values(|t: LevelTrade| t@) == recent(all.take(i as int), cutoff as int),
            forall|j: int| 0 <= j < out@.len() ==> #[trigger] out@[j].age_ms == age_ms_of(now, out@[j].timestamp),
        decreases trades@.len() - i,
    {
        assert(all.take(i + 1).drop_last() =~= all.take(i as int));
        let t = &trades[i];
        assert(all.take(i + 1).last() == t@);
        if (t.timestamp as i128) >= cutoff {
            let ghost before = out@;
            out.push(t.aged(age_ms(now, t.timestamp)));
            assert(out@.map_values(|t: LevelTrade| t@) =~= before.map_values(|t: LevelTrade| t@).push(t@));
        }
        i = i + 1;
    }
    assert(all.take(trades@.len() as int) =~= all);
    out
}

/// The total volume of trades on a side (all for `None`).
fn volume_of(ts: &Vec<LevelTrade>, side: Option<TradeSide>) -> (r: Option<Decimal>)
    ensures
        r == side_volume(ts@.map_values(|t: LevelTrade| t@), side),
{
    let ghost all = ts@.map_values(|t: LevelTrade| t@);
    let mut acc: Option<Decimal> = Some(dec_from_i64(0));
    let mut i: usize = 0;
    while i < ts.len()
        invariant
            i <= ts@.len(),
            all == ts@.map_values(|t: LevelTrade| t@),
            acc == side_volume(all.take(i as int), side),
        decreases ts@.len() - i,
    {
        assert(all.take(i + 1).drop_last() =~= all.take(i as int));
        assert(all.take(i + 1).last() == ts@[i as int]@);
        let t = &ts[i];
        acc = match acc {
            Some(a) => {
                let counts = match side {
                    None => true,
                    Some(s) => s == t.side,
                };
                if counts {
                    checked_add(&a, &t.volume)
                } else {
                    Some(a)
                }
            },
            None => None,
        };
        i = i + 1;
    }
    assert(all.take(ts@.len() as int) =~= all);
    acc
}

impl TradesByPriceLevel {
    /// Whether a trade can be filed (see [`Self::add_trade`]).
    pub fn addable(&self, trade: &TradeData) -> (b: bool)
        ensures
            b == self.can_add(*trade),
    {
        bucket_for(&trade.price, self.config.price_precision).is_some()
    }

    /// Files a trade when that does not overflow; says whether it did.
    pub fn try_add_trade(&mut self, trade: &TradeData) -> (added: bool)
        requires
            old(self).wf(),
        ensures
            final(self).wf(),
            added == old(self).can_add(*trade),
            !added ==> final(self).levels_of(trade.symbol@) == old(self).levels_of(trade.symbol@),
    {
        if self.addable(trade) {
            self.add_trade(trade);
            true
        } else {
            false
        }
    }

    /// The trades at a price level of a symbol, oldest first, aged at `now`
    /// (microseconds since the epoch); empty for an unknown level.
    pub fn trades_at_price_at(&self, symbol: &str, price: Decimal, now: i64) -> (r: Vec<LevelTrade>)
        requires
            self.wf(),
        ensures
            r@.map_values(|t: LevelTrade| t@) == match self.levels_of(symbol@) {
                Some(l) => match trades_at(l, price) {
                    Some(ts) => ts,
                    None => Seq::empty(),
                },
                None => Seq::empty(),
            },
            forall|j: int| 0 <= j < r@.len() ==> #[trigger] r@[j].age_ms == age_ms_of(now, r@[j].timestamp),
    {
        let key = symbol.to_string();
        match self.find(&key) {
            Some(si) => {
                proof {
                    lemma_first_symbol(self.names(), symbol@, si as int);
                    assert(levels_ok(self.books()[si as int], self.cfg()));
                }
                let st = &self.symbols[si];
                match level_index(&st.levels, &price) {
                    Some(li) => {
                        let r = recent_trades(&st.levels[li].trades, i64::MIN as i128, now);
                        proof {
                            lemma_recent_all(st.levels[li as int].trades@.map_values(|t: LevelTrade| t@), i64::MIN as int);
                        }
                        r
                    },
                    None => Vec::new(),
                }
            },
            None => {
                proof {
                    if exists|k: int| is_first_symbol(self.names(), symbol@, k) {
                        let k = choose|k: int| is_first_symbol(self.names(), symbol@, k);
                        assert(self.names()[k] != symbol@);
                    }
                }
                Vec::new()
            },
        }
    }

    /// The trades at a price level of a symbol, aged now.
    pub fn get_trades_at_price(&self, symbol: &str, price: Decimal) -> (r: Vec<LevelTrade>)
        requires
            self.wf(),
        ensures
            r@.map_values(|t: LevelTrade| t@) == match self.levels_of(symbol@) {
                Some(l) => match trades_at(l, price) {
                    Some(ts) => ts,
                    None => Seq::empty(),
                },
                None => Seq::empty(),
            },
    {
        self.trades_at_price_at(symbol, price, utc_now_micros())
    }

    /// The statistics of a price level over the trades in the aggregation
    /// window ending at `now`; `None` for an unknown level or on overflow.
    pub fn stats_at_price_at(&self, symbol: &str, price: Decimal, now: i64) -> (r: Option<LevelTradeStats>)
        requires
            self.wf(),
        ensures
            match self.levels_of(symbol@) {
                Some(l) => match trades_at(l, price) {
                    Some(ts) => match stats_of(price, recent(ts, cutoff_of(now, self.cfg().aggregation_window_secs))) {
                        Some(v) => r matches Some(st) && st.stats_view() == v && (st.last_trade matches Some(t)
                            ==> t.age_ms == age_ms_of(now, t.timestamp)),
                        None => r is None,
                    },
                    None => r is None,
                },
                None => r is None,
            },
    {
        let key = symbol.to_string();
        match self.find(&key) {
            Some(si) => {
                proof {
                    lemma_first_symbol(self.names(), symbol@, si as int);
                    assert(levels_ok(self.books()[si as int], self.cfg()));
                }
                let st = &self.symbols[si];
                match level_index(&st.levels, &price) {
                    Some(li) => {
                        let cutoff = (now as i128) - (self.config.aggregation_window_secs as i128) * 1_000_000;
                        let mut rec = recent_trades(&st.levels[li].trades, cutoff, now);
                        let ghost rv = rec@.map_values(|t: LevelTrade| t@);
                        let total = volume_of(&rec, None);
                        let buy = volume_of(&rec, Some(TradeSide::Buy));
                        let sell = volume_of(&rec, Some(TradeSide::Sell));
                        match (total, buy, sell) {
                            (Some(total_volume), Some(buy_volume), Some(sell_volume)) => {
                                let n = rec.len();
                                let avg = if n > 0 {
                                    checked_div(&total_volume, &dec_from_u64(n as u64))
                                } else {
                                    Some(dec_from_i64(0))
                                };
                                match avg {
                                    Some(avg_trade_size) => {
                                        let first_trade_time = if n > 0 { Some(rec[0].timestamp) } else { None };
                                        let last_trade_time = if n > 0 { Some(rec[n - 1].timestamp) } else { None };
                                        let last_trade = if n > 0 { rec.pop() } else { None };
                                        assert(n > 0 ==> rv.last() == rv[n - 1]);
                                        Some(
                                            LevelTradeStats {
                                                price,
                                                total_volume,
                                                trade_count: n,
                                                buy_volume,
                                                sell_volume,
                                                last_trade,
                                                avg_trade_size,
                                                first_trade_time,
                                                last_trade_time,
                                            },
                                        )
                                    },
                                    None => None,
                                }
                            },
                            _ => None,
                        }
                    },
                    None => None,
                }
            },
            None => {
                proof {
                    if exists|k: int| is_first_symbol(self.names(), symbol@, k) {
                        let k = choose|k: int| is_first_symbol(self.names(), symbol@, k);
                        assert(self.names()[k] != symbol@);
                    }
                }
                None
            },
        }
    }

    /// The statistics of a price level over the current aggregation window.
    pub fn get_stats_at_price(&self, symbol: &str, price: Decimal) -> (r: Option<LevelTradeStats>)
        requires
            self.wf(),
        ensures
            self.levels_of(symbol@) is None ==> r is None,
    {
        self.stats_at_price_at(symbol, price, utc_now_micros())
    }

    /// The prices of a symbol's levels with a trade in the window ending at
    /// `now`, lowest first.
    pub fn active_levels_at(&self, symbol: &str, now: i64) -> (r: Vec<Decimal>)
        requires
            self.wf(),
        ensures
            r@ == match self.levels_of(symbol@) {
                Some(l) => active_prices(l, cutoff_of(now, self.cfg().aggregation_window_secs)),
                None => Seq::empty(),
            },
    {
        let key = symbol.to_string();
        match self.find(&key) {
            Some(si) => {
                proof {
                    lemma_first_symbol(self.names(), symbol@, si as int);
                }
                let st = &self.symbols[si];
                let ghost lv = levels_view(st.levels@);
                let cutoff = (now as i128) - (self.config.aggregation_window_secs as i128) * 1_000_000;
                let mut out: Vec<Decimal> = Vec::new();
                let mut i: usize = 0;
                while i < st.levels.len()
                    invariant
                        i <= st.levels@.len(),
                        lv == levels_view(st.levels@),
                        cutoff == cutoff_of(now, self.cfg().aggregation_window_secs),
                        out@ == active_prices(lv.take(i as int), cutoff as int),
                    decreases st.levels@.len() - i,
                {
                    assert(lv.take(i + 1).drop_last() =~= lv.take(i as int));
                    assert(lv.take(i + 1).last() == level_view(st.levels@[i as int]));
                    let r = recent_trades(&st.levels[i].trades, cutoff, now);
                    if r.len() > 0 {
                        out.push(st.levels[i].price);
                    }
                    i = i + 1;
                }
                assert(lv.take(st.levels@.len() as int) =~= lv);
                out
            },
            None => {
                proof {
                    if exists|k: int| is_first_symbol(self.names(), symbol@, k) {
                        let k = choose|k: int| is_first_symbol(self.names(), symbol@, k);
                        assert(self.names()[k] != symbol@);
                    }
                }
                Vec::new()
            },
        }
    }

    /// The prices of a symbol's levels with a trade in the current window.
    pub fn get_active_levels(&self, symbol: &str) -> (r: Vec<Decimal>)
        requires
            self.wf(),
        ensures
            self.levels_of(symbol@) is None ==> r@.len() == 0,
    {
        self.active_levels_at(symbol, utc_now_micros())
    }

    /// The statistics of every active level of a symbol at `now`, lowest
    /// price first (levels whose statistics overflow are left out).
    pub fn trade_overlay_at(&self, symbol: &str, now: i64) -> (r: Vec<LevelTradeStats>)
        requires
            self.wf(),
        ensures
            r@.map_values(|st: LevelTradeStats| st.stats_view()) == overlay_of(
                self.levels_of(symbol@),
                self.active_levels_view(symbol@, now),
                cutoff_of(now, self.cfg().aggregation_window_secs),
            ),
    {
        let prices = self.active_levels_at(symbol, now);
        let ghost l = self.levels_of(symbol@);
        let ghost c = cutoff_of(now, self.cfg().aggregation_window_secs);
        let mut out: Vec<LevelTradeStats> = Vec::new();
        let mut i: usize = 0;
        while i < prices.len()
            invariant
                i <= prices@.len(),
                self.wf(),
                l == self.levels_of(symbol@),
                c == cutoff_of(now, self.cfg().aggregation_window_secs),
                out@.map_values(|st: LevelTradeStats| st.stats_view()) == overlay_of(l, prices@.take(i as int), c),
            decreases prices@.len() - i,
        {
            assert(prices@.take(i + 1).drop_last() =~= prices@.take(i as int));
            assert(prices@.take(i + 1).last() == prices@[i as int]);
            let ghost before = out@;
            match self.stats_at_price_at(symbol, prices[i], now) {
                Some(st) => {
                    out.push(st);
                    assert(out@.map_values(|st: LevelTradeStats| st.stats_view()) =~= before.map_values(
                        |st: LevelTradeStats| st.stats_view(),
                    ).push(st.stats_view()));
                },
                None => {},
            }
            i = i + 1;
        }
        assert(prices@.take(prices@.len() as int) =~= prices@);
        out
    }

    /// The prices of the active levels of a symbol at `now`.
    pub open spec fn active_levels_view(&self, symbol: Seq<char>, now: i64) -> Seq<Decimal> {
        match self.levels_of(symbol) {
            Some(l) => active_prices(l, cutoff_of(now, self.cfg().aggregation_window_secs)),
            None => Seq::empty(),
        }
    }

    /// The statistics of every active level of a symbol now.
    pub fn get_trade_overlay(&self, symbol: &str) -> (r: Vec<LevelTradeStats>)
        requires
            self.wf(),
        ensures
            exists|now: i64|
                r@.map_values(|st: LevelTradeStats| st.stats_view()) == #[trigger] overlay_of(
                    self.levels_of(symbol@),
                    self.active_levels_view(symbol@, now),
                    cutoff_of(now, self.cfg().aggregation_window_secs),
                ),
    {
        self.trade_overlay_at(symbol, utc_now_micros())
    }

    /// Forgets the trades of a symbol.
    pub fn clear_symbol(&mut self, symbol: &str)
        requires
            old(self).wf(),
        ensures
            final(self).wf(),
            final(self).levels_of(symbol@) is None,
    {
        let key = symbol.to_string();
        let mut kept: Vec<SymbolTrades> = Vec::new();
        let mut old_symbols: Vec<SymbolTrades> = Vec::new();
        std::mem::swap(&mut old_symbols, &mut self.symbols);
        let ghost cfg = self.config;
        assert forall|j: int| 0 <= j < old_symbols@.len() implies levels_ok(levels_view(#[trigger] old_symbols@[j].levels@), cfg) by {
            assert(old(self).books()[j] == levels_view(old_symbols@[j].levels@));
        }
        while old_symbols.len() > 0
            invariant
                key@ == symbol@,
                self.config == cfg,
                forall|j: int| 0 <= j < kept@.len() ==> #[trigger] kept@[j].symbol@ != symbol@,
                forall|j: int| 0 <= j < kept@.len() ==> levels_ok(levels_view(#[trigger] kept@[j].levels@), cfg),
                forall|j: int| 0 <= j < old_symbols@.len() ==> levels_ok(levels_view(#[trigger] old_symbols@[j].levels@), cfg),
            decreases old_symbols@.len(),
        {
            let ghost before = old_symbols@;
            let st = old_symbols.pop().unwrap();
            assert(forall|j: int| 0 <= j < old_symbols@.len() ==> old_symbols@[j] == before[j]);
            assert(st == before[before.len() - 1]);
            if st.symbol != key {
                kept.push(st);
            }
        }
        self.symbols = kept;
        assert(self.books().len() == self.names().len());
        assert forall|i: int| 0 <= i < self.books().len() implies levels_ok(#[trigger] self.books()[i], self.cfg()) by {
            assert(self.books()[i] == levels_view(self.symbols@[i].levels@));
        }
        proof {
            if exists|k: int| is_first_symbol(self.names(), symbol@, k) {
                let k = choose|k: int| is_first_symbol(self.names(), symbol@, k);
                assert(self.names()[k] == self.symbols@[k].symbol@);
            }
        }
    }

    /// Forgets all trades.
    pub fn clear_all(&mut self)
        ensures
            final(self).wf(),
            final(self).names().len() == 0,
            final(self).cfg() == old(self).cfg(),
    {
        self.symbols = Vec::new();
        assert(self.names().len() == 0);
        assert(self.books().len() == 0);
    }
}

impl Default for TradesByPriceLevel {
    fn default() -> (t: Self)
        ensures
            t.wf(),
            t.names().len() == 0,
    {
        TradesByPriceLevel::new()
    }
}

/// With the lowest cutoff every trade is recent.
proof fn lemma_recent_all(ts: Seq<TradeRecord>, cutoff: int)
    requires
        cutoff == i64::MIN as int,
    ensures
        recent(ts, cutoff) == ts,
    decreases ts.len(),
{
    if ts.len() > 0 {
        lemma_recent_all(ts.drop_last(), cutoff);
        assert(ts.drop_last().push(ts.last()) =~= ts);
    }
}

// ---------------------------------------------------------------------------
// Market health
// ---------------------------------------------------------------------------

/// Market health status.
#[derive(Debug, Clone, Copy, PartialEq, Eq, Structural)]
pub enum MarketStatus {
    /// Market is active and receiving updates
    Active,
    /// Market may be stale (no recent updates)
    Stale,
    /// Market appears halted or paused
    Halted,
    /// Unknown status (no data yet)
    Unknown,
}

/// Configuration for stale book detection.
#[derive(Debug, Clone, Copy)]
pub struct StaleDetectionConfig {
    /// Time without updates before marking as stale (seconds)
    pub stale_threshold_secs: u64,
    /// Time without updates before marking as halted (seconds)
    pub halt_threshold_secs: u64,
}

impl Default for StaleDetectionConfig {
    fn default() -> (c: Self)
        ensures
            c.stale_threshold_secs == 5,
            c.halt_threshold_secs == 30,
    {
        StaleDetectionConfig { stale_threshold_secs: 5, halt_threshold_secs: 30 }
    }
}

/// The whole seconds from `last` to `now` (truncated toward zero), as an
/// unsigned count: a negative count wraps around.
pub open spec fn elapsed_secs(now: i64, last: i64) -> u64 {
    let d = now - last;
    let q = if d >= 0 { d / 1_000_000 } else { -((-d) / 1_000_000) };
    if q >= 0 { q as u64 } else { (q + 0x1_0000_0000_0000_0000) as u64 }
}

/// The status after `elapsed` seconds without an update.
pub open spec fn status_after(cfg: StaleDetectionConfig, elapsed: u64) -> MarketStatus {
    if elapsed >= cfg.halt_threshold_secs {
        MarketStatus::Halted
    } else if elapsed >= cfg.stale_threshold_secs {
        MarketStatus::Stale
    } else {
        MarketStatus::Active
    }
}

/// Computes `elapsed_secs`.
fn elapsed_seconds(now: i64, last: i64) -> (r: u64)
    ensures
        r == elapsed_secs(now, last),
{
    let d: i128 = (now as i128) - (last as i128);
    let q: i128 = if d >= 0 { d / 1_000_000 } else { -((-d) / 1_000_000) };
    if q >= 0 {
        q as u64
    } else {
        (q + 0x1_0000_0000_0000_0000i128) as u64
    }
}

/// Computes `status_after`.
fn status_for(cfg: &StaleDetectionConfig, elapsed: u64) -> (s: MarketStatus)
    ensures
        s == status_after(*cfg, elapsed),
{
    if elapsed >= cfg.halt_threshold_secs {
        MarketStatus::Halted
    } else if elapsed >= cfg.stale_threshold_secs {
        MarketStatus::Stale
    } else {
        MarketStatus::Active
    }
}

/// A symbol's last update time and status.
#[derive(Debug)]
pub struct HealthEntry {
    pub symbol: String,
    /// Microseconds since the Unix epoch (UTC)
    pub last_update: i64,
    pub status: MarketStatus,
}

/// Tracks market health and detects stale or halted markets.
pub struct MarketHealthTracker {
    config: StaleDetectionConfig,
    entries: Vec<HealthEntry>,
}

impl MarketHealthTracker {
    /// The configuration.
    pub closed spec fn cfg(&self) -> StaleDetectionConfig {
        self.config
    }

    /// The symbols tracked, with their last update and status, in the order first seen.
    pub closed spec fn entries_view(&self) -> Seq<(Seq<char>, i64, MarketStatus)> {
        self.entries@.map_values(|e: HealthEntry| (e.symbol@, e.last_update, e.status))
    }

    /// The last update of a symbol, if any.
    pub open spec fn last_update_of(&self, symbol: Seq<char>) -> Option<i64> {
        lookup_health(self.entries_view(), symbol)
    }

    /// Each symbol is tracked once.
    pub open spec fn wf(&self) -> bool {
        unique_health(self.entries_view())
    }

    pub fn new() -> (t: Self)
        ensures
            t.wf(),
            t.entries_view().len() == 0,
    {
        Self::with_config(StaleDetectionConfig::default())
    }

    pub fn with_config(config: StaleDetectionConfig) -> (t: Self)
        ensures
            t.wf(),
            t.cfg() == config,
            t.entries_view().len() == 0,
    {
        let t = MarketHealthTracker { config, entries: Vec::new() };
        assert(t.entries_view().len() == 0);
        t
    }

    fn find(&self, symbol: &String) -> (r: Option<usize>)
        requires
            self.wf(),
        ensures
            match r {
                Some(i) => i < self.entries_view().len() && self.entries_view()[i as int].0 == symbol@ && self.last_update_of(symbol@)
                    == Some(self.entries_view()[i as int].1),
                None => self.last_update_of(symbol@) is None,
            },
    {
        let mut i: usize = 0;
        while i < self.entries.len()
            invariant
                i <= self.entries@.len(),
                self.wf(),
                forall|j: int| 0 <= j < i ==> #[trigger] self.entries_view()[j].0 != symbol@,
            decreases self.entries@.len() - i,
        {
            assert(self.entries_view()[i as int].0 == self.entries@[i as int].symbol@);
            if self.entries[i].symbol == *symbol {
                proof {
                    let k = choose|k: int| 0 <= k < self.entries_view().len() && #[trigger] self.entries_view()[k].0 == symbol@;
                    if k != i {
                        if k < i {
                        } else {
                            assert(self.entries_view()[i as int].0 != self.entries_view()[k].0);
                        }
                    }
                }
                return Some(i);
            }
            i = i + 1;
        }
        None
    }

    /// Records an update for a symbol at `now` (microseconds since the epoch):
    /// the symbol becomes active.
    pub fn record_update_at(&mut self, symbol: &str, now: i64)
        requires
            old(self).wf(),
        ensures
            final(self).wf(),
            final(self).cfg() == old(self).cfg(),
            final(self).last_update_of(symbol@) == Some(now),
            forall|s: Seq<char>| s != symbol@ ==> #[trigger] final(self).last_update_of(s) == old(self).last_update_of(s),
    {
        let key = symbol.to_string();
        let ghost t0 = self.entries_view();
        let ghost m0 = *self;
        match self.find(&key) {
            Some(i) => {
                self.entries.set(i, HealthEntry { symbol: key, last_update: now, status: MarketStatus::Active });
                assert(self.entries_view() =~= t0.update(i as int, (symbol@, now, MarketStatus::Active)));
                assert(unique_health(self.entries_view())) by {
                    assert forall|a: int, b: int| 0 <= a < b < self.entries_view().len() implies #[trigger] self.entries_view()[a].0
                        != #[trigger] self.entries_view()[b].0 by {
                        assert(t0[a].0 != t0[b].0);
                    }
                }
                proof {
                    lemma_health_slot(self.entries_view(), symbol@, i as int);
                    assert(self.entries_view()[i as int].0 == symbol@);
                    assert(self.last_update_of(symbol@) == Some(now));
                }
            },
            None => {
                self.entries.push(HealthEntry { symbol: key, last_update: now, status: MarketStatus::Active });
                assert(self.entries_view() =~= t0.push((symbol@, now, MarketStatus::Active)));
                assert forall|k: int| 0 <= k < t0.len() implies #[trigger] t0[k].0 != symbol@ by {
                    if t0[k].0 == symbol@ {
                        assert(exists|k: int| 0 <= k < t0.len() && #[trigger] t0[k].0 == symbol@);
                    }
                }
                assert(unique_health(self.entries_view())) by {
                    assert forall|a: int, b: int| 0 <= a < b < self.entries_view().len() implies #[trigger] self.entries_view()[a].0
                        != #[trigger] self.entries_view()[b].0 by {
                        if b < t0.len() {
                            assert(t0[a].0 != t0[b].0);
                        }
                    }
                }
                proof {
                    lemma_health_slot(self.entries_view(), symbol@, t0.len() as int);
                    assert(self.entries_view()[t0.len() as int].0 == symbol@);
                    assert(self.last_update_of(symbol@) == Some(now));
                }
            },
        }
        assert forall|s: Seq<char>| s != symbol@ implies #[trigger] self.last_update_of(s) == m0.last_update_of(s) by {
            lemma_health_others(t0, self.entries_view(), symbol@, s);
        }
    }

    /// Records an update for a symbol now.
    pub fn record_update(&mut self, symbol: &str)
        requires
            old(self).wf(),
        ensures
            final(self).wf(),
            final(self).last_update_of(symbol@) is Some,
    {
        self.record_update_at(symbol, utc_now_micros());
    }

    /// The status of a symbol at `now`: unknown before any update, else by the
    /// whole seconds since its last update (halted, stale or active).
    pub fn check_status_at(&self, symbol: &str, now: i64) -> (s: MarketStatus)
        requires
            self.wf(),
        ensures
            s == match self.last_update_of(symbol@) {
                None => MarketStatus::Unknown,
                Some(last) => status_after(self.cfg(), elapsed_secs(now, last)),
            },
    {
        let key = symbol.to_string();
        match self.find(&key) {
            None => MarketStatus::Unknown,
            Some(i) => status_for(&self.config, elapsed_seconds(now, self.entries[i].last_update)),
        }
    }

    /// The status of a symbol now.
    pub fn check_status(&self, symbol: &str) -> (s: MarketStatus)
        requires
            self.wf(),
        ensures
            self.last_update_of(symbol@) is None <==> s == MarketStatus::Unknown,
    {
        let s = self.check_status_at(symbol, utc_now_micros());
        s
    }

    /// Milliseconds since a symbol's last update at `now` (zero if in the future).
    pub fn time_since_update_at(&self, symbol: &str, now: i64) -> (r: Option<u64>)
        requires
            self.wf(),
        ensures
            r == match self.last_update_of(symbol@) {
                None => None,
                Some(last) => Some(age_ms_of(now, last)),
            },
    {
        let key = symbol.to_string();
        match self.find(&key) {
            None => None,
            Some(i) => Some(age_ms(now, self.entries[i].last_update)),
        }
    }

    /// Milliseconds since a symbol's last update.
    pub fn get_time_since_update(&self, symbol: &str) -> (r: Option<u64>)
        requires
            self.wf(),
        ensures
            r is Some <==> self.last_update_of(symbol@) is Some,
    {
        self.time_since_update_at(symbol, utc_now_micros())
    }

    /// Updates every symbol's status at `now` and returns all statuses.
    pub fn tick_at(&mut self, now: i64) -> (r: Vec<(String, MarketStatus)>)
        requires
            old(self).wf(),
        ensures
            final(self).wf(),
            final(self).entries_view().len() == old(self).entries_view().len(),
            r@.len() == old(self).entries_view().len(),
            forall|i: int| 0 <= i < r@.len() ==> {
                let t = old(self).entries_view()[i];
                &&& (#[trigger] r@[i]).0@ == t.0
                &&& r@[i].1 == status_after(old(self).cfg(), elapsed_secs(now, t.1))
                &&& final(self).entries_view()[i] == (t.0, t.1, r@[i].1)
            },
    {
        let ghost t0 = self.entries_view();
        let mut out: Vec<(String, MarketStatus)> = Vec::new();
        let mut i: usize = 0;
        while i < self.entries.len()
            invariant
                i <= self.entries@.len(),
                self.entries@.len() == t0.len(),
                self.cfg() == old(self).cfg(),
                t0 == old(self).entries_view(),
                out@.len() == i,
                forall|j: int| 0 <= j < self.entries@.len() ==> (#[trigger] self.entries_view()[j]).0 == t0[j].0 && self.entries_view()[j].1 == t0[j].1,
                forall|j: int| 0 <= j < i ==> {
                    &&& (#[trigger] out@[j]).0@ == t0[j].0
                    &&& out@[j].1 == status_after(self.cfg(), elapsed_secs(now, t0[j].1))
                    &&& self.entries_view()[j].2 == out@[j].1
                },
            decreases self.entries@.len() - i,
        {
            assert(self.entries_view()[i as int] == (self.entries@[i as int].symbol@, self.entries@[i as int].last_update, self.entries@[i as int].status));
            let st = status_for(&self.config, elapsed_seconds(now, self.entries[i].last_update));
            let e = HealthEntry { symbol: self.entries[i].symbol.clone(), last_update: self.entries[i].last_update, status: st };
            let name = self.entries[i].symbol.clone();
            let ghost before = self.entries_view();
            self.entries.set(i, e);
            assert(self.entries_view() =~= before.update(i as int, (before[i as int].0, before[i as int].1, st)));
            out.push((name, st));
            i = i + 1;
        }
        assert forall|i: int| 0 <= i < out@.len() implies {
            let t = t0[i];
            &&& (#[trigger] out@[i]).0@ == t.0
            &&& out@[i].1 == status_after(self.cfg(), elapsed_secs(now, t.1))
            &&& self.entries_view()[i] == (t.0, t.1, out@[i].1)
        } by {
            assert(self.entries_view()[i].0 == t0[i].0 && self.entries_view()[i].1 == t0[i].1);
        }
        assert(self.wf()) by {
            assert forall|a: int, b: int| 0 <= a < b < self.entries_view().len() implies #[trigger] self.entries_view()[a].0
                != #[trigger] self.entries_view()[b].0 by {
                assert(t0[a].0 != t0[b].0);
            }
        }
        out
    }

    /// Updates every symbol's status now and returns all statuses.
    pub fn tick(&mut self) -> (r: Vec<(String, MarketStatus)>)
        requires
            old(self).wf(),
        ensures
            final(self).wf(),
            r@.len() == old(self).entries_view().len(),
    {
        self.tick_at(utc_now_micros())
    }
}

impl Default for MarketHealthTracker {
    fn default() -> (t: Self)
        ensures
            t.wf(),
            t.entries_view().len() == 0,
    {
        MarketHealthTracker::new()
    }
}

/// The last update recorded for a symbol.
pub open spec fn lookup_health(t: Seq<(Seq<char>, i64, MarketStatus)>, s: Seq<char>) -> Option<i64> {
    if exists|i: int| 0 <= i < t.len() && #[trigger] t[i].0 == s {
        Some(t[choose|i: int| 0 <= i < t.len() && #[trigger] t[i].0 == s].1)
    } else {
        None
    }
}

/// Each symbol at most once.
pub open spec fn unique_health(t: Seq<(Seq<char>, i64, MarketStatus)>) -> bool {
    forall|a: int, b: int| 0 <= a < b < t.len() ==> #[trigger] t[a].0 != #[trigger] t[b].0
}

/// Changing or adding the entry of `sym` leaves the lookup of other symbols.
proof fn lemma_health_others(
    t0: Seq<(Seq<char>, i64, MarketStatus)>,
    t1: Seq<(Seq<char>, i64, MarketStatus)>,
    sym: Seq<char>,
    s: Seq<char>,
)
    requires
        unique_health(t0),
        unique_health(t1),
        s != sym,
        t0.len() <= t1.len(),
        forall|k: int| 0 <= k < t0.len() ==> (#[trigger] t1[k]).0 == t0[k].0 && (t0[k].0 != sym ==> t1[k] == t0[k]),
        forall|k: int| t0.len() <= k < t1.len() ==> (#[trigger] t1[k]).0 == sym,
    ensures
        lookup_health(t1, s) == lookup_health(t0, s),
{
    if exists|k: int| 0 <= k < t0.len() && #[trigger] t0[k].0 == s {
        let k = choose|k: int| 0 <= k < t0.len() && #[trigger] t0[k].0 == s;
        lemma_health_slot(t0, s, k);
        assert(t1[k].0 == s);
        lemma_health_slot(t1, s, k);
    } else if exists|k: int| 0 <= k < t1.len() && #[trigger] t1[k].0 == s {
        let k = choose|k: int| 0 <= k < t1.len() && #[trigger] t1[k].0 == s;
        if k < t0.len() {
            assert(t0[k].0 == s);
        }
    }
}

/// With each symbol once, the slot of a symbol is the one the lookup picks.
proof fn lemma_health_slot(t: Seq<(Seq<char>, i64, MarketStatus)>, s: Seq<char>, k: int)
    requires
        forall|a: int, b: int| 0 <= a < b < t.len() ==> #[trigger] t[a].0 != #[trigger] t[b].0,
        0 <= k < t.len(),
        t[k].0 == s,
    ensures
        (choose|i: int| 0 <= i < t.len() && #[trigger] t[i].0 == s) == k,
{
    let c = choose|i: int| 0 <= i < t.len() && #[trigger] t[i].0 == s;
    if c < k {
        assert(t[c].0 != t[k].0);
    } else if k < c {
        assert(t[k].0 != t[c].0);
    }
}

} // verus!