//! Order book state management: the price levels of each side kept in price
//! order, and the views a visualiser needs (depth ladder with cumulative
//! sizes, imbalance, book pressure, tick aggregation, range filtering).
//!
//! Decimal arithmetic is checked: a result that would overflow a decimal is
//! where the book has no answer, which the functions say in their contracts.

use crate::clock::utc_now_micros;
use crate::data::{OrderBookUpdate, PriceLevel};
use crate::decimal::{
    checked_add, checked_div, checked_mul, checked_sub, dec_add, dec_div, dec_eq, dec_from_i64, dec_is_zero, dec_lt,
    dec_floor, dec_mantissa, dec_mul, dec_new, dec_of, dec_of_int, dec_sub, dec_text, floor, pow10, to_text, units,
};
use crate::error::ParseError;
use vstd::utf8::encode_utf8;
use rust_decimal::Decimal;
use vstd::prelude::*;

verus! {

broadcast use vstd::string::group_string_axioms;

/// An entry of a book side: the price it is filed under and its level.
pub type Entry = (Decimal, PriceLevel);

/// Whether the entries are in strictly increasing price order.
pub open spec fn ascending(s: Seq<Entry>) -> bool {
    forall|i: int, j: int| 0 <= i < j < s.len() ==> units(#[trigger] s[i].0) < units(#[trigger] s[j].0)
}

/// Where an entry of price value `k` belongs: after every entry below `k`.
pub open spec fn insert_pos(s: Seq<Entry>, k: int) -> int
    decreases s.len(),
{
    if s.len() == 0 || units(s[0].0) >= k {
        0
    } else {
        1 + insert_pos(s.drop_first(), k)
    }
}

/// Whether an entry of price value `k` is at `p`.
pub open spec fn found_at(s: Seq<Entry>, k: int, p: int) -> bool {
    p < s.len() && units(s[p].0) == k
}

/// The side after setting the level at `key`: a present price keeps the
/// price it was filed under and takes the new level; a new price is filed in order.
pub open spec fn upsert(s: Seq<Entry>, key: Decimal, level: PriceLevel) -> Seq<Entry> {
    let p = insert_pos(s, units(key));
    if found_at(s, units(key), p) {
        s.update(p, (s[p].0, level))
    } else {
        s.insert(p, (key, level))
    }
}

/// The side without the entry at `key`.
pub open spec fn removed(s: Seq<Entry>, key: Decimal) -> Seq<Entry> {
    let p = insert_pos(s, units(key));
    if found_at(s, units(key), p) {
        s.remove(p)
    } else {
        s
    }
}

/// The level filed at price value `k`, if any.
pub open spec fn lookup(s: Seq<Entry>, k: int) -> Option<PriceLevel> {
    if exists|i: int| 0 <= i < s.len() && units(#[trigger] s[i].0) == k {
        Some(s[choose|i: int| 0 <= i < s.len() && units(#[trigger] s[i].0) == k].1)
    } else {
        None
    }
}

/// `insert_pos` is the count of entries below `k`, for an ascending side.
proof fn lemma_insert_pos(s: Seq<Entry>, k: int, p: int)
    requires
        ascending(s),
        0 <= p <= s.len(),
        forall|j: int| 0 <= j < p ==> units(#[trigger] s[j].0) < k,
        p == s.len() || units(s[p].0) >= k,
    ensures
        insert_pos(s, k) == p,
    decreases p,
{
    if p > 0 {
        let t = s.drop_first();
        assert forall|j: int| 0 <= j < p - 1 implies units(#[trigger] t[j].0) < k by {
            assert(t[j] == s[j + 1]);
        }
        if p - 1 < t.len() {
            assert(t[p - 1] == s[p]);
        }
        lemma_insert_pos(t, k, p - 1);
    }
}

/// The position facts of `insert_pos` on an ascending side.
proof fn lemma_insert_pos_bounds(s: Seq<Entry>, k: int)
    requires
        ascending(s),
    ensures
        0 <= insert_pos(s, k) <= s.len(),
        forall|j: int| 0 <= j < insert_pos(s, k) ==> units(#[trigger] s[j].0) < k,
        forall|j: int| insert_pos(s, k) <= j < s.len() ==> units(#[trigger] s[j].0) >= k,
    decreases s.len(),
{
    if s.len() > 0 && units(s[0].0) < k {
        let t = s.drop_first();
        assert(ascending(t)) by {
            assert forall|i: int, j: int| 0 <= i < j < t.len() implies units(#[trigger] t[i].0) < units(#[trigger] t[j].0) by {
                assert(t[i] == s[i + 1] && t[j] == s[j + 1]);
            }
        }
        lemma_insert_pos_bounds(t, k);
        assert forall|j: int| 0 <= j < insert_pos(s, k) implies units(#[trigger] s[j].0) < k by {
            if j > 0 {
                assert(s[j] == t[j - 1]);
            }
        }
        assert forall|j: int| insert_pos(s, k) <= j < s.len() implies units(#[trigger] s[j].0) >= k by {
            assert(s[j] == t[j - 1]);
        }
    } else if s.len() > 0 {
        assert forall|j: int| 0 <= j < s.len() implies units(#[trigger] s[j].0) >= k by {
            if j > 0 {
                assert(units(s[0].0) < units(s[j].0));
            }
        }
    }
}

/// One side of a book: levels by price, lowest first, at most one per price value.
#[derive(Debug)]
pub struct BookSide {
    entries: Vec<Entry>,
}

impl View for BookSide {
    type V = Seq<Entry>;

    closed spec fn view(&self) -> Seq<Entry> {
        self.entries@
    }
}

impl BookSide {
    #[verifier::type_invariant]
    pub(crate) open spec fn ordered(&self) -> bool {
        ascending(self@)
    }

    /// An empty side.
    pub fn new() -> (s: Self)
        ensures
            s@ == Seq::<Entry>::empty(),
    {
        BookSide { entries: Vec::new() }
    }

    /// A side holding the given entries, which must be in strictly increasing price order.
    pub fn from_sorted(entries: Vec<Entry>) -> (s: Self)
        requires
            ascending(entries@),
        ensures
            s@ == entries@,
    {
        BookSide { entries }
    }

    /// Number of price levels.
    pub fn len(&self) -> (n: usize)
        ensures
            n == self@.len(),
    {
        self.entries.len()
    }

    /// Whether the side has no level.
    pub fn is_empty(&self) -> (b: bool)
        ensures
            b == (self@.len() == 0),
    {
        self.entries.len() == 0
    }

    /// The `i`-th entry in price order.
    pub fn entry(&self, i: usize) -> (e: Entry)
        requires
            i < self@.len(),
        ensures
            e == self@[i as int],
    {
        self.entries[i]
    }

    /// Where price `key` belongs.
    fn position(&self, key: &Decimal) -> (p: usize)
        ensures
            p == insert_pos(self@, units(*key)),
            p <= self@.len(),
    {
        proof {
            use_type_invariant(self);
        }
        let mut i: usize = 0;
        while i < self.entries.len() && dec_lt(&self.entries[i].0, key)
            invariant
                i <= self.entries@.len(),
                forall|j: int| 0 <= j < i ==> units(#[trigger] self.entries@[j].0) < units(*key),
            decreases self.entries@.len() - i,
        {
            i = i + 1;
        }
        proof {
            lemma_insert_pos(self@, units(*key), i as int);
        }
        i
    }

    /// Sets the level at price `key`; returns the level it replaces.
    pub fn insert(&mut self, key: Decimal, level: PriceLevel) -> (old_level: Option<PriceLevel>)
        ensures
            final(self)@ == upsert(old(self)@, key, level),
            old_level == lookup(old(self)@, units(key)),
    {
        proof {
            use_type_invariant(&*self);
            lemma_insert_pos_bounds(self@, units(key));
        }
        let ghost s0 = self@;
        let p = self.position(&key);
        if p < self.entries.len() && dec_eq(&self.entries[p].0, &key) {
            let (k0, l0) = self.entries[p];
            proof {
                lemma_lookup_at(s0, units(key), p as int);
            }
            let mut v: Vec<Entry> = Vec::new();
            std::mem::swap(&mut v, &mut self.entries);
            v.set(p, (k0, level));
            assert(ascending(v@)) by {
                assert forall|i: int, j: int| 0 <= i < j < v@.len() implies units(#[trigger] v@[i].0) < units(
                    #[trigger] v@[j].0,
                ) by {
                    assert(units(s0[i].0) < units(s0[j].0));
                }
            }
            self.entries = v;
            Some(l0)
        } else {
            proof {
                lemma_lookup_absent(s0, units(key), p as int);
            }
            let mut v: Vec<Entry> = Vec::new();
            std::mem::swap(&mut v, &mut self.entries);
            v.insert(p, (key, level));
            assert(ascending(v@)) by {
                let s1 = v@;
                assert forall|i: int, j: int| 0 <= i < j < s1.len() implies units(#[trigger] s1[i].0) < units(
                    #[trigger] s1[j].0,
                ) by {
                    if j < p {
                        assert(s1[i] == s0[i] && s1[j] == s0[j]);
                    } else if j == p {
                        assert(s1[i] == s0[i]);
                    } else if i < p {
                        assert(s1[i] == s0[i] && s1[j] == s0[j - 1]);
                    } else if i == p {
                        assert(s1[j] == s0[j - 1]);
                    } else {
                        assert(s1[i] == s0[i - 1] && s1[j] == s0[j - 1]);
                    }
                }
            }
            self.entries = v;
            None
        }
    }

    /// Removes the level at price `key`; returns it.
    pub fn remove(&mut self, key: &Decimal) -> (old_level: Option<PriceLevel>)
        ensures
            final(self)@ == removed(old(self)@, *key),
            old_level == lookup(old(self)@, units(*key)),
    {
        proof {
            use_type_invariant(&*self);
            lemma_insert_pos_bounds(self@, units(*key));
        }
        let ghost s0 = self@;
        let p = self.position(key);
        if p < self.entries.len() && dec_eq(&self.entries[p].0, key) {
            proof {
                lemma_lookup_at(s0, units(*key), p as int);
            }
            let mut v: Vec<Entry> = Vec::new();
            std::mem::swap(&mut v, &mut self.entries);
            let (_, l0) = v.remove(p);
            assert(ascending(v@)) by {
                let s1 = v@;
                assert forall|i: int, j: int| 0 <= i < j < s1.len() implies units(#[trigger] s1[i].0) < units(
                    #[trigger] s1[j].0,
                ) by {
                    if j < p {
                        assert(s1[i] == s0[i] && s1[j] == s0[j]);
                    } else if i < p {
                        assert(s1[i] == s0[i] && s1[j] == s0[j + 1]);
                    } else {
                        assert(s1[i] == s0[i + 1] && s1[j] == s0[j + 1]);
                    }
                }
            }
            self.entries = v;
            Some(l0)
        } else {
            proof {
                lemma_lookup_absent(s0, units(*key), p as int);
            }
            None
        }
    }

    /// The level at price `key`.
    pub fn get(&self, key: &Decimal) -> (r: Option<PriceLevel>)
        ensures
            r == lookup(self@, units(*key)),
    {
        proof {
            use_type_invariant(self);
            lemma_insert_pos_bounds(self@, units(*key));
        }
        let p = self.position(key);
        if p < self.entries.len() && dec_eq(&self.entries[p].0, key) {
            proof {
                lemma_lookup_at(self@, units(*key), p as int);
            }
            Some(self.entries[p].1)
        } else {
            proof {
                lemma_lookup_absent(self@, units(*key), p as int);
            }
            None
        }
    }

    /// The lowest-priced entry.
    pub fn first(&self) -> (r: Option<Entry>)
        ensures
            r == (if self@.len() > 0 { Some(self@[0]) } else { None::<Entry> }),
    {
        if self.entries.len() > 0 {
            Some(self.entries[0])
        } else {
            None
        }
    }

    /// The highest-priced entry.
    pub fn last(&self) -> (r: Option<Entry>)
        ensures
            r == (if self@.len() > 0 { Some(self@[self@.len() - 1]) } else { None::<Entry> }),
    {
        if self.entries.len() > 0 {
            Some(self.entries[self.entries.len() - 1])
        } else {
            None
        }
    }
}

/// On an ascending side, the entry at a found position is the one `lookup` returns.
proof fn lemma_lookup_at(s: Seq<Entry>, k: int, p: int)
    requires
        ascending(s),
        0 <= p < s.len(),
        units(s[p].0) == k,
    ensures
        lookup(s, k) == Some(s[p].1),
{
    let i = choose|i: int| 0 <= i < s.len() && units(#[trigger] s[i].0) == k;
    if i != p {
        if i < p {
            assert(units(s[i].0) < units(s[p].0));
        } else {
            assert(units(s[p].0) < units(s[i].0));
        }
    }
}

/// On an ascending side, a value not at its insertion point is absent.
proof fn lemma_lookup_absent(s: Seq<Entry>, k: int, p: int)
    requires
        ascending(s),
        p == insert_pos(s, k),
        !found_at(s, k, p),
    ensures
        lookup(s, k) is None,
{
    lemma_insert_pos_bounds(s, k);
    if exists|i: int| 0 <= i < s.len() && units(#[trigger] s[i].0) == k {
        let i = choose|i: int| 0 <= i < s.len() && units(#[trigger] s[i].0) == k;
        if i > p {
            assert(units(s[p].0) < units(s[i].0));
        }
    }
}

/// Setting a level keeps a side in price order, and afterwards the side
/// reads back the new level at that price and what it read before elsewhere.
pub proof fn law_upsert_reads_back(s: Seq<Entry>, key: Decimal, level: PriceLevel, k: int)
    requires
        ascending(s),
    ensures
        ascending(upsert(s, key, level)),
        lookup(upsert(s, key, level), k) == if k == units(key) { Some(level) } else { lookup(s, k) },
{
    let u = units(key);
    let p = insert_pos(s, u);
    lemma_insert_pos_bounds(s, u);
    let t = upsert(s, key, level);
    if found_at(s, u, p) {
        assert(ascending(t)) by {
            assert forall|i: int, j: int| 0 <= i < j < t.len() implies units(#[trigger] t[i].0) < units(#[trigger] t[j].0) by {
                assert(units(s[i].0) < units(s[j].0));
            }
        }
        if k == u {
            lemma_lookup_at(t, k, p);
        } else if exists|i: int| 0 <= i < s.len() && units(#[trigger] s[i].0) == k {
            let i = choose|i: int| 0 <= i < s.len() && units(#[trigger] s[i].0) == k;
            lemma_lookup_at(s, k, i);
            lemma_lookup_at(t, k, i);
        } else {
            assert forall|i: int| 0 <= i < t.len() implies units(#[trigger] t[i].0) != k by {
                assert(units(t[i].0) == units(s[i].0));
            }
        }
    } else {
        assert(ascending(t)) by {
            assert forall|i: int, j: int| 0 <= i < j < t.len() implies units(#[trigger] t[i].0) < units(#[trigger] t[j].0) by {
                if j < p {
                    assert(t[i] == s[i] && t[j] == s[j]);
                } else if j == p {
                    assert(t[i] == s[i]);
                } else if i < p {
                    assert(t[i] == s[i] && t[j] == s[j - 1]);
                } else if i == p {
                    assert(t[j] == s[j - 1]);
                } else {
                    assert(t[i] == s[i - 1] && t[j] == s[j - 1]);
                }
            }
        }
        if k == u {
            lemma_lookup_at(t, k, p);
        } else if exists|i: int| 0 <= i < s.len() && units(#[trigger] s[i].0) == k {
            let i = choose|i: int| 0 <= i < s.len() && units(#[trigger] s[i].0) == k;
            lemma_lookup_at(s, k, i);
            if i < p {
                assert(t[i] == s[i]);
                lemma_lookup_at(t, k, i);
            } else {
                assert(t[i + 1] == s[i]);
                lemma_lookup_at(t, k, i + 1);
            }
        } else {
            assert forall|i: int| 0 <= i < t.len() implies units(#[trigger] t[i].0) != k by {
                if i < p {
                    assert(t[i] == s[i]);
                } else if i > p {
                    assert(t[i] == s[i - 1]);
                }
            }
        }
    }
}

proof fn lemma_removed_ascending(s: Seq<Entry>, key: Decimal)
    requires
        ascending(s),
    ensures
        ascending(removed(s, key)),
{
    let u = units(key);
    let p = insert_pos(s, u);
    lemma_insert_pos_bounds(s, u);
    let t = removed(s, key);
    if found_at(s, u, p) {
        assert forall|i: int, j: int| 0 <= i < j < t.len() implies units(#[trigger] t[i].0) < units(#[trigger] t[j].0) by {
            if j < p {
                assert(t[i] == s[i] && t[j] == s[j]);
            } else if i < p {
                assert(t[i] == s[i] && t[j] == s[j + 1]);
            } else {
                assert(t[i] == s[i + 1] && t[j] == s[j + 1]);
            }
        }
    }
}

/// Removing a level keeps a side in price order, and afterwards the side
/// reads nothing at that price and what it read before elsewhere.
pub proof fn law_remove_reads_back(s: Seq<Entry>, key: Decimal, k: int)
    requires
        ascending(s),
    ensures
        ascending(removed(s, key)),
        lookup(removed(s, key), k) == if k == units(key) { None } else { lookup(s, k) },
{
    let u = units(key);
    let p = insert_pos(s, u);
    lemma_insert_pos_bounds(s, u);
    let t = removed(s, key);
    lemma_removed_ascending(s, key);
    if found_at(s, u, p) {
        if k == u {
            assert forall|i: int| 0 <= i < t.len() implies units(#[trigger] t[i].0) != k by {
                if i < p {
                    assert(t[i] == s[i]);
                    assert(units(s[i].0) < units(s[p].0));
                } else {
                    assert(t[i] == s[i + 1]);
                    assert(units(s[p].0) < units(s[i + 1].0));
                }
            }
        } else if exists|i: int| 0 <= i < s.len() && units(#[trigger] s[i].0) == k {
            let i = choose|i: int| 0 <= i < s.len() && units(#[trigger] s[i].0) == k;
            lemma_lookup_at(s, k, i);
            if i < p {
                assert(t[i] == s[i]);
                lemma_lookup_at(t, k, i);
            } else {
                assert(i != p);
                assert(t[i - 1] == s[i]);
                lemma_lookup_at(t, k, i - 1);
            }
        } else {
            assert forall|i: int| 0 <= i < t.len() implies units(#[trigger] t[i].0) != k by {
                if i < p {
                    assert(t[i] == s[i]);
                } else {
                    assert(t[i] == s[i + 1]);
                }
            }
        }
    } else {
        if k == u {
            lemma_lookup_absent(s, k, p);
        }
    }
}

// ---------------------------------------------------------------------------
// The book
// ---------------------------------------------------------------------------

impl BookSide {
    /// A copy of the side.
    pub fn copy(&self) -> (c: Self)
        ensures
            c@ == self@,
    {
        proof {
            use_type_invariant(self);
        }
        let mut v: Vec<Entry> = Vec::new();
        let mut i: usize = 0;
        while i < self.entries.len()
            invariant
                i <= self.entries@.len(),
                v@ == self.entries@.subrange(0, i as int),
            decreases self.entries@.len() - i,
        {
            v.push(self.entries[i]);
            i = i + 1;
            assert(v@ =~= self.entries@.subrange(0, i as int));
        }
        assert(v@ =~= self.entries@);
        BookSide { entries: v }
    }

    /// The `n` highest-priced entries, highest first.
    pub fn top_desc(&self, n: usize) -> (r: Vec<Entry>)
        ensures
            r@ == top_desc(self@, n as int),
    {
        let len = self.entries.len();
        let k = if n < len { n } else { len };
        let mut v: Vec<Entry> = Vec::new();
        let mut i: usize = 0;
        while i < k
            invariant
                k <= len,
                len == self@.len(),
                i <= k,
                k == (if n < len { n } else { len }),
                v@ =~= top_desc(self@, n as int).subrange(0, i as int),
            decreases k - i,
        {
            v.push(self.entries[len - 1 - i]);
            i = i + 1;
            assert(v@ =~= top_desc(self@, n as int).subrange(0, i as int));
        }
        assert(v@ =~= top_desc(self@, n as int));
        v
    }

    /// The `n` lowest-priced entries, lowest first.
    pub fn top_asc(&self, n: usize) -> (r: Vec<Entry>)
        ensures
            r@ == top_asc(self@, n as int),
    {
        let len = self.entries.len();
        let k = if n < len { n } else { len };
        let mut v: Vec<Entry> = Vec::new();
        let mut i: usize = 0;
        while i < k
            invariant
                k <= len,
                len == self@.len(),
                i <= k,
                k == (if n < len { n } else { len }),
                v@ =~= top_asc(self@, n as int).subrange(0, i as int),
            decreases k - i,
        {
            v.push(self.entries[i]);
            i = i + 1;
            assert(v@ =~= top_asc(self@, n as int).subrange(0, i as int));
        }
        assert(v@ =~= top_asc(self@, n as int));
        v
    }
}

/// How many entries the top `n` of a side hold.
pub open spec fn top_count(s: Seq<Entry>, n: int) -> int {
    if n < s.len() { n } else { s.len() as int }
}

/// The top `n` entries of a side by price, highest first (the best bids).
pub open spec fn top_desc(s: Seq<Entry>, n: int) -> Seq<Entry> {
    Seq::new(top_count(s, n) as nat, |i: int| s[s.len() - 1 - i])
}

/// The top `n` entries of a side by price, lowest first (the best asks).
pub open spec fn top_asc(s: Seq<Entry>, n: int) -> Seq<Entry> {
    s.take(top_count(s, n))
}

/// The decimal zero.
pub open spec fn zero() -> Decimal {
    dec_of_int(0)
}

/// The sum of the volumes of the entries, in order from zero; `None` when a
/// partial sum overflows.
pub open spec fn vol_total(levels: Seq<Entry>) -> Option<Decimal>
    decreases levels.len(),
{
    if levels.len() == 0 {
        Some(zero())
    } else {
        match vol_total(levels.drop_last()) {
            Some(t) => dec_add(t, levels.last().1.volume),
            None => None,
        }
    }
}

/// The price of the best bid (highest) of a side.
pub open spec fn highest(s: Seq<Entry>) -> Option<Decimal> {
    if s.len() > 0 { Some(s[s.len() - 1].0) } else { None }
}

/// The price of the best ask (lowest) of a side.
pub open spec fn lowest(s: Seq<Entry>) -> Option<Decimal> {
    if s.len() > 0 { Some(s[0].0) } else { None }
}

/// Best ask minus best bid, when both sides have a level.
pub open spec fn spread_of(bids: Seq<Entry>, asks: Seq<Entry>) -> Option<Decimal> {
    match (highest(bids), lowest(asks)) {
        (Some(b), Some(a)) => dec_sub(a, b),
        _ => None,
    }
}

/// The average of best bid and best ask, when both sides have a level.
pub open spec fn mid_of(bids: Seq<Entry>, asks: Seq<Entry>) -> Option<Decimal> {
    match (highest(bids), lowest(asks)) {
        (Some(b), Some(a)) => match dec_add(b, a) {
            Some(t) => dec_div(t, dec_of_int(2)),
            None => None,
        },
        _ => None,
    }
}

/// Order book state for a single symbol.
#[derive(Debug)]
pub struct OrderBook {
    pub symbol: String,
    pub bids: BookSide,
    pub asks: BookSide,
    /// Microseconds since the Unix epoch (UTC)
    pub last_update: i64,
    pub checksum: Option<u32>,
}

impl OrderBook {
    /// An empty book for the symbol.
    pub fn new(symbol: &str) -> (b: Self)
        ensures
            b.symbol@ == symbol@,
            b.bids@.len() == 0,
            b.asks@.len() == 0,
            b.checksum is None,
    {
        OrderBook {
            symbol: symbol.to_string(),
            bids: BookSide::new(),
            asks: BookSide::new(),
            last_update: utc_now_micros(),
            checksum: None,
        }
    }

    /// A copy of the book.
    pub fn copy(&self) -> (c: Self)
        ensures
            c.symbol@ == self.symbol@,
            c.bids@ == self.bids@,
            c.asks@ == self.asks@,
            c.last_update == self.last_update,
            c.checksum == self.checksum,
    {
        OrderBook {
            symbol: self.symbol.clone(),
            bids: self.bids.copy(),
            asks: self.asks.copy(),
            last_update: self.last_update,
            checksum: self.checksum,
        }
    }

    /// Spread (best ask minus best bid); `None` when a side is empty or the
    /// difference overflows.
    pub fn get_spread(&self) -> (r: Option<Decimal>)
        ensures
            r == spread_of(self.bids@, self.asks@),
    {
        match (self.bids.last(), self.asks.first()) {
            (Some(b), Some(a)) => checked_sub(&a.0, &b.0),
            _ => None,
        }
    }

    /// Mid price (average of best bid and best ask); `None` when a side is
    /// empty or the arithmetic overflows.
    pub fn get_mid_price(&self) -> (r: Option<Decimal>)
        ensures
            r == mid_of(self.bids@, self.asks@),
    {
        match (self.bids.last(), self.asks.first()) {
            (Some(b), Some(a)) => match checked_add(&b.0, &a.0) {
                Some(t) => {
                    let two = dec_from_i64(2);
                    checked_div(&t, &two)
                },
                None => None,
            },
            _ => None,
        }
    }

    /// Whether both sides are empty.
    pub fn is_empty(&self) -> (b: bool)
        ensures
            b == (self.bids@.len() == 0 && self.asks@.len() == 0),
    {
        self.bids.is_empty() && self.asks.is_empty()
    }

    /// The highest bid level.
    pub fn get_best_bid(&self) -> (r: Option<PriceLevel>)
        ensures
            r == (if self.bids@.len() > 0 { Some(self.bids@[self.bids@.len() - 1].1) } else { None::<PriceLevel> }),
    {
        match self.bids.last() {
            Some(e) => Some(e.1),
            None => None,
        }
    }

    /// The lowest ask level.
    pub fn get_best_ask(&self) -> (r: Option<PriceLevel>)
        ensures
            r == (if self.asks@.len() > 0 { Some(self.asks@[0].1) } else { None::<PriceLevel> }),
    {
        match self.asks.first() {
            Some(e) => Some(e.1),
            None => None,
        }
    }

    /// The volume at a price: the bid level's if there is one, else the ask level's.
    pub fn get_volume_at_price(&self, price: Decimal) -> (r: Option<Decimal>)
        ensures
            r == match lookup(self.bids@, units(price)) {
                Some(l) => Some(l.volume),
                None => match lookup(self.asks@, units(price)) {
                    Some(l) => Some(l.volume),
                    None => None,
                },
            },
    {
        match self.bids.get(&price) {
            Some(l) => Some(l.volume),
            None => match self.asks.get(&price) {
                Some(l) => Some(l.volume),
                None => None,
            },
        }
    }

    /// The top `n` levels of each side: bids highest first, asks lowest first.
    pub fn get_top_levels(&self, n: usize) -> (r: (Vec<PriceLevel>, Vec<PriceLevel>))
        ensures
            r.0@ == top_desc(self.bids@, n as int).map_values(|e: Entry| e.1),
            r.1@ == top_asc(self.asks@, n as int).map_values(|e: Entry| e.1),
    {
        let b = self.bids.top_desc(n);
        let a = self.asks.top_asc(n);
        (levels_of(&b), levels_of(&a))
    }
}

/// The levels of a list of entries.
fn levels_of(v: &Vec<Entry>) -> (r: Vec<PriceLevel>)
    ensures
        r@ == v@.map_values(|e: Entry| e.1),
{
    let mut out: Vec<PriceLevel> = Vec::new();
    let mut i: usize = 0;
    while i < v.len()
        invariant
            i <= v@.len(),
            out@ =~= v@.subrange(0, i as int).map_values(|e: Entry| e.1),
        decreases v@.len() - i,
    {
        out.push(v[i].1);
        i = i + 1;
        assert(out@ =~= v@.subrange(0, i as int).map_values(|e: Entry| e.1));
    }
    assert(v@.subrange(0, v@.len() as int) =~= v@);
    out
}

/// The sum of the volumes, in order from zero; `None` on overflow.
pub fn sum_volumes(levels: &Vec<Entry>) -> (r: Option<Decimal>)
    ensures
        r == vol_total(levels@),
{
    let mut acc: Option<Decimal> = Some(dec_from_i64(0));
    let mut i: usize = 0;
    while i < levels.len()
        invariant
            i <= levels@.len(),
            acc == vol_total(levels@.take(i as int)),
        decreases levels@.len() - i,
    {
        let ghost pre = levels@.take(i as int);
        assert(levels@.take(i + 1).drop_last() =~= pre);
        acc = match acc {
            Some(t) => checked_add(&t, &levels[i].1.volume),
            None => None,
        };
        i = i + 1;
    }
    assert(levels@.take(levels@.len() as int) =~= levels@);
    acc
}

/// A prefix of levels whose total exists has a total too.
proof fn lemma_vol_prefix(levels: Seq<Entry>, i: int)
    requires
        0 <= i <= levels.len(),
        vol_total(levels) is Some,
    ensures
        vol_total(levels.take(i)) is Some,
    decreases levels.len(),
{
    if i < levels.len() {
        assert(levels.drop_last().take(i) =~= levels.take(i));
        lemma_vol_prefix(levels.drop_last(), i);
    } else {
        assert(levels.take(i) =~= levels);
    }
}

/// A single level in the depth ladder with cumulative data.
#[derive(Debug, Clone, Copy)]
pub struct LadderLevel {
    /// Price at this level
    pub price: Decimal,
    /// Volume at this specific level
    pub volume: Decimal,
    /// Cumulative volume from best price to this level
    pub cumulative_volume: Decimal,
    /// Percentage of total side volume at this level
    pub volume_percent: Decimal,
    /// Cumulative percentage from best price
    pub cumulative_percent: Decimal,
    /// Distance from mid price in absolute terms
    pub distance_from_mid: Option<Decimal>,
    /// Distance from mid price in basis points
    pub distance_bps: Option<Decimal>,
    /// Original timestamp of this level
    pub timestamp: i64,
}

/// Depth ladder with cumulative sizes for visualization.
#[derive(Debug)]
pub struct DepthLadder {
    pub symbol: String,
    /// Bid side ladder (best bid first)
    pub bids: Vec<LadderLevel>,
    /// Ask side ladder (best ask first)
    pub asks: Vec<LadderLevel>,
    /// Best bid price
    pub best_bid: Option<Decimal>,
    /// Best ask price
    pub best_ask: Option<Decimal>,
    /// Mid price
    pub mid_price: Option<Decimal>,
    /// Spread in absolute terms
    pub spread: Option<Decimal>,
    /// Spread as percentage of mid price
    pub spread_bps: Option<Decimal>,
    /// Microseconds since the Unix epoch (UTC)
    pub timestamp: i64,
}

/// `a × b` when `a` exists.
pub open spec fn mul_opt(a: Option<Decimal>, b: Decimal) -> Option<Decimal> {
    match a {
        Some(x) => dec_mul(x, b),
        None => None,
    }
}

/// `part / total × 100`, zero for a zero total.
pub open spec fn percent_of(part: Decimal, total: Decimal) -> Option<Decimal> {
    if dec_mantissa(total) == 0 {
        Some(zero())
    } else {
        mul_opt(dec_div(part, total), dec_of_int(100))
    }
}

/// `x / m × 10000`: `x` in basis points of `m`.
pub open spec fn bps_of(x: Decimal, m: Decimal) -> Option<Decimal> {
    mul_opt(dec_div(x, m), dec_of_int(10000))
}

/// The distance of a price from the mid price (below it for a bid, above it
/// for an ask) and that distance in basis points; no answer without a
/// non-zero mid price. The outer `None` is an overflow.
pub open spec fn distances(price: Decimal, mid: Option<Decimal>, bid: bool) -> Option<(Option<Decimal>, Option<Decimal>)> {
    match mid {
        Some(m) => if dec_mantissa(m) != 0 {
            match (if bid { dec_sub(m, price) } else { dec_sub(price, m) }) {
                Some(d) => match bps_of(d, m) {
                    Some(b) => Some((Some(d), Some(b))),
                    None => None,
                },
                None => None,
            }
        } else {
            Some((None, None))
        },
        None => Some((None, None)),
    }
}

/// The ladder level of an entry with the cumulative volume up to it.
pub open spec fn ladder_level(e: Entry, cum: Decimal, total: Decimal, mid: Option<Decimal>, bid: bool) -> Option<LadderLevel> {
    match (percent_of(e.1.volume, total), percent_of(cum, total), distances(e.0, mid, bid)) {
        (Some(vp), Some(cp), Some(dist)) => Some(LadderLevel {
            price: e.0,
            volume: e.1.volume,
            cumulative_volume: cum,
            volume_percent: vp,
            cumulative_percent: cp,
            distance_from_mid: dist.0,
            distance_bps: dist.1,
            timestamp: e.1.timestamp,
        }),
        _ => None,
    }
}

/// The ladder of a list of levels (best first); `None` on overflow.
pub open spec fn ladder_side(levels: Seq<Entry>, total: Decimal, mid: Option<Decimal>, bid: bool) -> Option<Seq<LadderLevel>>
    decreases levels.len(),
{
    if levels.len() == 0 {
        Some(Seq::empty())
    } else {
        match (ladder_side(levels.drop_last(), total, mid, bid), vol_total(levels)) {
            (Some(prev), Some(cum)) => match ladder_level(levels.last(), cum, total, mid, bid) {
                Some(l) => Some(prev.push(l)),
                None => None,
            },
            _ => None,
        }
    }
}

/// The ladder of one side of a book: its levels with their total.
pub open spec fn side_ladder(levels: Seq<Entry>, mid: Option<Decimal>, bid: bool) -> Option<Seq<LadderLevel>> {
    match vol_total(levels) {
        Some(total) => ladder_side(levels, total, mid, bid),
        None => None,
    }
}

/// `x / m × 100`: `x` as a percentage of `m`.
pub open spec fn percent_of_mid(x: Decimal, m: Decimal) -> Option<Decimal> {
    mul_opt(dec_div(x, m), dec_of_int(100))
}

/// The spread as a percentage of the mid price; the outer `None` is an overflow.
pub open spec fn spread_bps_of(spread: Option<Decimal>, mid: Option<Decimal>) -> Option<Option<Decimal>> {
    match (spread, mid) {
        (Some(sp), Some(m)) => if dec_mantissa(m) != 0 {
            match percent_of_mid(sp, m) {
                Some(b) => Some(Some(b)),
                None => None,
            }
        } else {
            Some(None)
        },
        _ => Some(None),
    }
}

/// Whether a ladder level states its distance from the mid price `mid` in
/// basis points: the distance is how far the price lies below the mid (a
/// bid) or above it (an ask), and `distance_bps` is that distance divided by
/// the mid and multiplied by 10000, a basis point being a ten-thousandth of
/// the mid; both are present exactly when there is a non-zero mid.
pub open spec fn distance_in_basis_points(l: LadderLevel, mid: Option<Decimal>, bid: bool) -> bool {
    match l.distance_bps {
        Some(b) => match (mid, l.distance_from_mid) {
            (Some(m), Some(d)) => {
                &&& dec_mantissa(m) != 0
                &&& Some(d) == (if bid { dec_sub(m, l.price) } else { dec_sub(l.price, m) })
                &&& dec_div(d, m) matches Some(q) && dec_mul(q, dec_of_int(10000)) == Some(b)
            },
            _ => false,
        },
        None => l.distance_from_mid is None && !(mid matches Some(m) && dec_mantissa(m) != 0),
    }
}

/// Every level of a ladder side states its distance in basis points.
proof fn lemma_ladder_side_bps(levels: Seq<Entry>, total: Decimal, mid: Option<Decimal>, bid: bool)
    requires
        ladder_side(levels, total, mid, bid) is Some,
    ensures
        forall|i: int|
            0 <= i < ladder_side(levels, total, mid, bid).unwrap().len() ==> distance_in_basis_points(
                #[trigger] ladder_side(levels, total, mid, bid).unwrap()[i],
                mid,
                bid,
            ),
    decreases levels.len(),
{
    if levels.len() > 0 {
        lemma_ladder_side_bps(levels.drop_last(), total, mid, bid);
        let prev = ladder_side(levels.drop_last(), total, mid, bid).unwrap();
        let cum = vol_total(levels).unwrap();
        let l = ladder_level(levels.last(), cum, total, mid, bid).unwrap();
        assert(ladder_side(levels, total, mid, bid).unwrap() == prev.push(l));
        assert(distance_in_basis_points(l, mid, bid));
        assert forall|i: int| 0 <= i < prev.push(l).len() implies distance_in_basis_points(
            #[trigger] prev.push(l)[i],
            mid,
            bid,
        ) by {
            if i < prev.len() {
                assert(prev.push(l)[i] == prev[i]);
            }
        }
    }
}

/// A ladder built over a prefix extends to the next level.
proof fn lemma_ladder_prefix(levels: Seq<Entry>, total: Decimal, mid: Option<Decimal>, bid: bool, i: int)
    requires
        0 <= i <= levels.len(),
        ladder_side(levels, total, mid, bid) is Some,
    ensures
        ladder_side(levels.take(i), total, mid, bid) is Some,
        vol_total(levels.take(i)) is Some,
    decreases levels.len(),
{
    if i < levels.len() {
        assert(levels.drop_last().take(i) =~= levels.take(i));
        lemma_ladder_prefix(levels.drop_last(), total, mid, bid, i);
    } else {
        assert(levels.take(i) =~= levels);
        if levels.len() > 0 {
            assert(vol_total(levels) is Some);
        }
    }
}

/// Builds the ladder of a list of levels (best first).
fn build_ladder(levels: &Vec<Entry>, total: &Decimal, mid: Option<Decimal>, bid: bool) -> (r: Vec<LadderLevel>)
    requires
        ladder_side(levels@, *total, mid, bid) is Some,
    ensures
        r@ == ladder_side(levels@, *total, mid, bid).unwrap(),
{
    let mut out: Vec<LadderLevel> = Vec::new();
    let mut cum = dec_from_i64(0);
    let mut i: usize = 0;
    while i < levels.len()
        invariant
            i <= levels@.len(),
            ladder_side(levels@, *total, mid, bid) is Some,
            Some(out@) == ladder_side(levels@.take(i as int), *total, mid, bid),
            Some(cum) == vol_total(levels@.take(i as int)),
        decreases levels@.len() - i,
    {
        let ghost next = levels@.take(i + 1);
        assert(next.drop_last() =~= levels@.take(i as int));
        assert(next.last() == levels@[i as int]);
        proof {
            lemma_ladder_prefix(levels@, *total, mid, bid, i + 1);
        }
        let e = levels[i];
        cum = checked_add(&cum, &e.1.volume).unwrap();
        let hundred = dec_from_i64(100);
        let volume_percent = if dec_is_zero(total) {
            dec_from_i64(0)
        } else {
            checked_mul(&checked_div(&e.1.volume, total).unwrap(), &hundred).unwrap()
        };
        let cumulative_percent = if dec_is_zero(total) {
            dec_from_i64(0)
        } else {
            checked_mul(&checked_div(&cum, total).unwrap(), &hundred).unwrap()
        };
        let (distance_from_mid, distance_bps) = match mid {
            Some(m) => {
                if !dec_is_zero(&m) {
                    let dist = if bid {
                        checked_sub(&m, &e.0).unwrap()
                    } else {
                        checked_sub(&e.0, &m).unwrap()
                    };
                    let ten_k = dec_from_i64(10000);
                    let bps = checked_mul(&checked_div(&dist, &m).unwrap(), &ten_k).unwrap();
                    (Some(dist), Some(bps))
                } else {
                    (None, None)
                }
            },
            None => (None, None),
        };
        out.push(
            LadderLevel {
                price: e.0,
                volume: e.1.volume,
                cumulative_volume: cum,
                volume_percent,
                cumulative_percent,
                distance_from_mid,
                distance_bps,
                timestamp: e.1.timestamp,
            },
        );
        i = i + 1;
    }
    assert(levels@.take(levels@.len() as int) =~= levels@);
    out
}

/// Whether the ladder of a list of levels can be built without overflow.
fn ladder_builds(levels: &Vec<Entry>, total: &Decimal, mid: Option<Decimal>, bid: bool) -> (b: bool)
    ensures
        b == ladder_side(levels@, *total, mid, bid) is Some,
{
    let mut cum = dec_from_i64(0);
    let mut i: usize = 0;
    while i < levels.len()
        invariant
            i <= levels@.len(),
            ladder_side(levels@.take(i as int), *total, mid, bid) is Some,
            Some(cum) == vol_total(levels@.take(i as int)),
        decreases levels@.len() - i,
    {
        let ghost next = levels@.take(i + 1);
        assert(next.drop_last() =~= levels@.take(i as int));
        assert(next.last() == levels@[i as int]);
        let e = levels[i];
        let hundred = dec_from_i64(100);
        let ten_k = dec_from_i64(10000);
        let ok: bool;
        match checked_add(&cum, &e.1.volume) {
            None => {
                ok = false;
            },
            Some(c) => {
                cum = c;
                let vp_ok = dec_is_zero(total) || match checked_div(&e.1.volume, total) {
                    Some(q) => checked_mul(&q, &hundred).is_some(),
                    None => false,
                };
                let cp_ok = dec_is_zero(total) || match checked_div(&cum, total) {
                    Some(q) => checked_mul(&q, &hundred).is_some(),
                    None => false,
                };
                let d_ok = match mid {
                    Some(m) => dec_is_zero(&m) || match (if bid { checked_sub(&m, &e.0) } else { checked_sub(&e.0, &m) }) {
                        Some(d) => match checked_div(&d, &m) {
                            Some(q) => checked_mul(&q, &ten_k).is_some(),
                            None => false,
                        },
                        None => false,
                    },
                    None => true,
                };
                ok = vp_ok && cp_ok && d_ok;
            },
        }
        if !ok {
            proof {
                if ladder_side(levels@, *total, mid, bid) is Some {
                    lemma_ladder_prefix(levels@, *total, mid, bid, i + 1);
                }
            }
            return false;
        }
        i = i + 1;
    }
    assert(levels@.take(levels@.len() as int) =~= levels@);
    true
}

impl OrderBook {
    /// Whether the ladder of `depth` levels per side can be computed without
    /// a decimal overflow.
    pub open spec fn ladder_fits(&self, depth: usize) -> bool {
        let mid = mid_of(self.bids@, self.asks@);
        &&& side_ladder(top_desc(self.bids@, depth as int), mid, true) is Some
        &&& side_ladder(top_asc(self.asks@, depth as int), mid, false) is Some
        &&& spread_bps_of(spread_of(self.bids@, self.asks@), mid) is Some
    }

    /// What the ladder of `depth` levels per side holds.
    pub open spec fn ladder_is(&self, depth: usize, l: DepthLadder) -> bool {
        let mid = mid_of(self.bids@, self.asks@);
        let spread = spread_of(self.bids@, self.asks@);
        &&& l.symbol@ == self.symbol@
        &&& l.bids@ == side_ladder(top_desc(self.bids@, depth as int), mid, true).unwrap()
        &&& l.asks@ == side_ladder(top_asc(self.asks@, depth as int), mid, false).unwrap()
        &&& l.best_bid == highest(self.bids@)
        &&& l.best_ask == lowest(self.asks@)
        &&& l.mid_price == mid
        &&& l.spread == spread
        &&& l.spread_bps == spread_bps_of(spread, mid).unwrap()
    }

    /// Every level of a depth ladder gives its distance from the mid price in
    /// basis points: distance / mid × 10000, the distance measured below the
    /// mid for a bid and above it for an ask.
    pub proof fn law_ladder_distance_in_basis_points(&self, depth: usize, l: DepthLadder)
        requires
            self.ladder_fits(depth),
            self.ladder_is(depth, l),
        ensures
            forall|i: int| 0 <= i < l.bids@.len() ==> distance_in_basis_points(#[trigger] l.bids@[i], l.mid_price, true),
            forall|i: int| 0 <= i < l.asks@.len() ==> distance_in_basis_points(#[trigger] l.asks@[i], l.mid_price, false),
    {
        let mid = mid_of(self.bids@, self.asks@);
        let bl = top_desc(self.bids@, depth as int);
        let al = top_asc(self.asks@, depth as int);
        lemma_ladder_side_bps(bl, vol_total(bl).unwrap(), mid, true);
        lemma_ladder_side_bps(al, vol_total(al).unwrap(), mid, false);
    }

    /// Whether the depth ladder of `depth` levels per side can be computed.
    pub fn ladder_computable(&self, depth: usize) -> (b: bool)
        ensures
            b == self.ladder_fits(depth),
    {
        let mid = self.get_mid_price();
        let spread = self.get_spread();
        let bps_ok = match (spread, mid) {
            (Some(sp), Some(m)) => dec_is_zero(&m) || match checked_div(&sp, &m) {
                Some(q) => checked_mul(&q, &dec_from_i64(100)).is_some(),
                None => false,
            },
            _ => true,
        };
        if !bps_ok {
            return false;
        }
        let bid_levels = self.bids.top_desc(depth);
        let ask_levels = self.asks.top_asc(depth);
        let bids_ok = match sum_volumes(&bid_levels) {
            Some(t) => ladder_builds(&bid_levels, &t, mid, true),
            None => false,
        };
        let asks_ok = match sum_volumes(&ask_levels) {
            Some(t) => ladder_builds(&ask_levels, &t, mid, false),
            None => false,
        };
        bids_ok && asks_ok
    }

    /// The depth ladder of the top `depth` levels per side: per level its
    /// volume, the cumulative volume from the best price, both as a percent of
    /// the side's total, and its distance from the mid price.
    pub fn get_depth_ladder(&self, depth: usize) -> (l: DepthLadder)
        requires
            self.ladder_fits(depth),
        ensures
            self.ladder_is(depth, l),
    {
        let mid_price = self.get_mid_price();
        let spread = self.get_spread();
        let best_bid = match self.bids.last() {
            Some(e) => Some(e.0),
            None => None,
        };
        let best_ask = match self.asks.first() {
            Some(e) => Some(e.0),
            None => None,
        };
        let spread_bps = match (spread, mid_price) {
            (Some(sp), Some(m)) => {
                if !dec_is_zero(&m) {
                    Some(checked_mul(&checked_div(&sp, &m).unwrap(), &dec_from_i64(100)).unwrap())
                } else {
                    None
                }
            },
            _ => None,
        };
        let bid_levels = self.bids.top_desc(depth);
        let total_bid_volume = sum_volumes(&bid_levels).unwrap();
        let bids = build_ladder(&bid_levels, &total_bid_volume, mid_price, true);
        let ask_levels = self.asks.top_asc(depth);
        let total_ask_volume = sum_volumes(&ask_levels).unwrap();
        let asks = build_ladder(&ask_levels, &total_ask_volume, mid_price, false);
        DepthLadder {
            symbol: self.symbol.clone(),
            bids,
            asks,
            best_bid,
            best_ask,
            mid_price,
            spread,
            spread_bps,
            timestamp: utc_now_micros(),
        }
    }

    /// The depth ladder when it can be computed, else `None`.
    pub fn try_depth_ladder(&self, depth: usize) -> (r: Option<DepthLadder>)
        ensures
            r is Some <==> self.ladder_fits(depth),
            r matches Some(l) ==> self.ladder_is(depth, l),
    {
        if self.ladder_computable(depth) {
            Some(self.get_depth_ladder(depth))
        } else {
            None
        }
    }
}

/// `(bid - ask) / (bid + ask)`, zero when the total is zero; `None` on overflow.
pub open spec fn imbalance_of(bid: Decimal, ask: Decimal) -> Option<Decimal> {
    match dec_add(bid, ask) {
        Some(t) => if dec_mantissa(t) == 0 {
            Some(zero())
        } else {
            match dec_sub(bid, ask) {
                Some(d) => dec_div(d, t),
                None => None,
            }
        },
        None => None,
    }
}

/// The sum of price × volume over the levels, in order from zero; `None` on overflow.
pub open spec fn weighted_total(levels: Seq<Entry>) -> Option<Decimal>
    decreases levels.len(),
{
    if levels.len() == 0 {
        Some(zero())
    } else {
        match (weighted_total(levels.drop_last()), dec_mul(levels.last().0, levels.last().1.volume)) {
            (Some(t), Some(w)) => dec_add(t, w),
            _ => None,
        }
    }
}

/// The volume-weighted average price of levels with total volume `vol`: none
/// for a zero volume; the outer `None` is an overflow.
pub open spec fn vwap_of(levels: Seq<Entry>, vol: Decimal) -> Option<Option<Decimal>> {
    if dec_mantissa(vol) == 0 {
        Some(None)
    } else {
        match weighted_total(levels) {
            Some(w) => match dec_div(w, vol) {
                Some(q) => Some(Some(q)),
                None => None,
            },
            None => None,
        }
    }
}

/// Computes `imbalance_of`.
fn imbalance(bid: &Decimal, ask: &Decimal) -> (r: Option<Decimal>)
    ensures
        r == imbalance_of(*bid, *ask),
{
    match checked_add(bid, ask) {
        Some(t) => {
            if dec_is_zero(&t) {
                Some(dec_from_i64(0))
            } else {
                match checked_sub(bid, ask) {
                    Some(d) => checked_div(&d, &t),
                    None => None,
                }
            }
        },
        None => None,
    }
}

/// Computes `weighted_total`.
fn weighted_sum(levels: &Vec<Entry>) -> (r: Option<Decimal>)
    ensures
        r == weighted_total(levels@),
{
    let mut acc: Option<Decimal> = Some(dec_from_i64(0));
    let mut i: usize = 0;
    while i < levels.len()
        invariant
            i <= levels@.len(),
            acc == weighted_total(levels@.take(i as int)),
        decreases levels@.len() - i,
    {
        assert(levels@.take(i + 1).drop_last() =~= levels@.take(i as int));
        let e = levels[i];
        acc = match (acc, checked_mul(&e.0, &e.1.volume)) {
            (Some(t), Some(w)) => checked_add(&t, &w),
            _ => None,
        };
        i = i + 1;
    }
    assert(levels@.take(levels@.len() as int) =~= levels@);
    acc
}

/// Computes `vwap_of`.
fn vwap(levels: &Vec<Entry>, vol: &Decimal) -> (r: Option<Option<Decimal>>)
    ensures
        r == vwap_of(levels@, *vol),
{
    if dec_is_zero(vol) {
        Some(None)
    } else {
        match weighted_sum(levels) {
            Some(w) => match checked_div(&w, vol) {
                Some(q) => Some(Some(q)),
                None => None,
            },
            None => None,
        }
    }
}

/// Liquidity imbalance metrics.
#[derive(Debug)]
pub struct ImbalanceMetrics {
    pub symbol: String,
    /// `(bid_vol - ask_vol) / (bid_vol + ask_vol)`: -1 (all asks) to +1 (all bids)
    pub imbalance_ratio: Decimal,
    /// Total bid volume in the measured depth
    pub bid_volume: Decimal,
    /// Total ask volume in the measured depth
    pub ask_volume: Decimal,
    /// Number of levels measured
    pub depth_levels: usize,
    /// Volume-weighted average bid price
    pub bid_vwap: Option<Decimal>,
    /// Volume-weighted average ask price
    pub ask_vwap: Option<Decimal>,
    /// Microseconds since the Unix epoch (UTC)
    pub timestamp: i64,
}

/// Pressure signal interpretation.
#[derive(Debug, Clone, Copy, PartialEq, Eq, Structural)]
pub enum PressureSignal {
    StrongBuy,
    WeakBuy,
    Neutral,
    WeakSell,
    StrongSell,
}

/// Book pressure indicator.
#[derive(Debug)]
pub struct BookPressure {
    pub symbol: String,
    /// Positive for buy pressure, negative for sell pressure
    pub pressure_score: Decimal,
    /// Interpretation of the pressure
    pub signal: PressureSignal,
    /// Confidence level (0 to 1)
    pub confidence: Decimal,
    /// Microseconds since the Unix epoch (UTC)
    pub timestamp: i64,
}

/// The signal of a pressure score: above 0.5 strong buy, above 0.2 weak buy,
/// below -0.5 strong sell, below -0.2 weak sell, else neutral.
pub open spec fn signal_of(score: Decimal) -> PressureSignal {
    if units(score) > tenths(5) {
        PressureSignal::StrongBuy
    } else if units(score) > tenths(2) {
        PressureSignal::WeakBuy
    } else if units(score) < tenths(-5) {
        PressureSignal::StrongSell
    } else if units(score) < tenths(-2) {
        PressureSignal::WeakSell
    } else {
        PressureSignal::Neutral
    }
}

/// `n` tenths, in the units of [`units`] (10^-28).
pub open spec fn tenths(n: int) -> int {
    n * pow10(27)
}

/// The order of the signals from most selling to most buying.
pub open spec fn signal_rank(s: PressureSignal) -> int {
    match s {
        PressureSignal::StrongSell => 0,
        PressureSignal::WeakSell => 1,
        PressureSignal::Neutral => 2,
        PressureSignal::WeakBuy => 3,
        PressureSignal::StrongBuy => 4,
    }
}

/// `10^n` is positive.
proof fn lemma_pow10_positive(n: nat)
    ensures
        pow10(n) > 0,
    decreases n,
{
    if n > 0 {
        lemma_pow10_positive((n - 1) as nat);
    }
}

/// The pressure signal reads the score against fixed bounds: strong sell
/// exactly below -0.5, weak sell exactly from -0.5 up to (not including)
/// -0.2, neutral from -0.2 to 0.2, weak buy above 0.2 up to 0.5, strong buy
/// above 0.5; and a higher score never gives a more selling signal.
pub proof fn law_pressure_signal_bounds(score: Decimal, other: Decimal)
    ensures
        signal_of(score) == PressureSignal::StrongSell <==> units(score) * 10 < -5 * pow10(28),
        signal_of(score) == PressureSignal::WeakSell <==> -5 * pow10(28) <= units(score) * 10 < -2 * pow10(28),
        signal_of(score) == PressureSignal::Neutral <==> -2 * pow10(28) <= units(score) * 10 <= 2 * pow10(28),
        signal_of(score) == PressureSignal::WeakBuy <==> 2 * pow10(28) < units(score) * 10 <= 5 * pow10(28),
        signal_of(score) == PressureSignal::StrongBuy <==> 5 * pow10(28) < units(score) * 10,
        units(score) <= units(other) ==> signal_rank(signal_of(score)) <= signal_rank(signal_of(other)),
{
    lemma_pow10_positive(27);
    assert(pow10(28) == 10 * pow10(27));
    let p = pow10(27);
    assert(tenths(-5) < tenths(-2) < tenths(2) < tenths(5)) by (nonlinear_arith)
        requires
            p > 0,
            tenths(-5) == -5 * p,
            tenths(-2) == -2 * p,
            tenths(2) == 2 * p,
            tenths(5) == 5 * p,
    ;
}

/// The confidence for a total volume: `total / (total + 100)`, at most one,
/// zero for a zero total; `None` on overflow.
pub open spec fn confidence_of(total: Decimal) -> Option<Decimal> {
    if dec_mantissa(total) == 0 {
        Some(zero())
    } else {
        match dec_add(total, dec_of_int(100)) {
            Some(d) => match dec_div(total, d) {
                Some(n) => Some(if units(n) > units(dec_of_int(1)) { dec_of_int(1) } else { n }),
                None => None,
            },
            None => None,
        }
    }
}

impl OrderBook {
    /// The bid and ask volume over the top `depth` levels per side.
    pub open spec fn depth_volumes(&self, depth: usize) -> (Option<Decimal>, Option<Decimal>) {
        (vol_total(top_desc(self.bids@, depth as int)), vol_total(top_asc(self.asks@, depth as int)))
    }

    /// The imbalance ratio over the top `depth` levels per side; `None` on overflow.
    pub open spec fn imbalance_spec(&self, depth: usize) -> Option<Decimal> {
        match self.depth_volumes(depth) {
            (Some(b), Some(a)) => imbalance_of(b, a),
            _ => None,
        }
    }

    /// Whether the imbalance metrics over `depth` levels compute without overflow.
    pub open spec fn metrics_fit(&self, depth: usize) -> bool {
        let (b, a) = self.depth_volumes(depth);
        &&& self.imbalance_spec(depth) is Some
        &&& vwap_of(top_desc(self.bids@, depth as int), b.unwrap()) is Some
        &&& vwap_of(top_asc(self.asks@, depth as int), a.unwrap()) is Some
    }

    /// What the imbalance metrics over `depth` levels hold.
    pub open spec fn metrics_are(&self, depth: usize, m: ImbalanceMetrics) -> bool {
        let (b, a) = self.depth_volumes(depth);
        &&& m.symbol@ == self.symbol@
        &&& Some(m.imbalance_ratio) == self.imbalance_spec(depth)
        &&& Some(m.bid_volume) == b
        &&& Some(m.ask_volume) == a
        &&& m.depth_levels == depth
        &&& Some(m.bid_vwap) == vwap_of(top_desc(self.bids@, depth as int), b.unwrap())
        &&& Some(m.ask_vwap) == vwap_of(top_asc(self.asks@, depth as int), a.unwrap())
    }

    /// Whether the book pressure over `depth` levels computes without overflow.
    pub open spec fn pressure_fits(&self, depth: usize) -> bool {
        let (b, a) = self.depth_volumes(depth);
        &&& self.metrics_fit(depth)
        &&& dec_add(b.unwrap(), a.unwrap()) is Some
        &&& confidence_of(dec_add(b.unwrap(), a.unwrap()).unwrap()) is Some
    }

    /// What the book pressure over `depth` levels holds.
    pub open spec fn pressure_is(&self, depth: usize, p: BookPressure) -> bool {
        let (b, a) = self.depth_volumes(depth);
        let score = self.imbalance_spec(depth).unwrap();
        &&& p.symbol@ == self.symbol@
        &&& p.pressure_score == score
        &&& p.signal == signal_of(score)
        &&& Some(p.confidence) == confidence_of(dec_add(b.unwrap(), a.unwrap()).unwrap())
    }

    /// A book pressure's signal reads its score against fixed bounds (strong
    /// sell exactly below -0.5, weak sell exactly from -0.5 up to -0.2, and
    /// the same on the buy side), and of two pressures the one with the
    /// higher score never has the more selling signal.
    pub proof fn law_book_pressure_signal(
        &self,
        depth: usize,
        p: BookPressure,
        other: OrderBook,
        other_depth: usize,
        q: BookPressure,
    )
        requires
            self.pressure_is(depth, p),
            other.pressure_is(other_depth, q),
        ensures
            p.signal == PressureSignal::StrongSell <==> units(p.pressure_score) * 10 < -5 * pow10(28),
            p.signal == PressureSignal::WeakSell <==> -5 * pow10(28) <= units(p.pressure_score) * 10 < -2 * pow10(
                28,
            ),
            p.signal == PressureSignal::Neutral <==> -2 * pow10(28) <= units(p.pressure_score) * 10 <= 2 * pow10(28),
            p.signal == PressureSignal::WeakBuy <==> 2 * pow10(28) < units(p.pressure_score) * 10 <= 5 * pow10(28),
            p.signal == PressureSignal::StrongBuy <==> 5 * pow10(28) < units(p.pressure_score) * 10,
            units(p.pressure_score) <= units(q.pressure_score) ==> signal_rank(p.signal) <= signal_rank(q.signal),
    {
        law_pressure_signal_bounds(p.pressure_score, q.pressure_score);
    }

    /// Liquidity imbalance over the top `depth` levels per side:
    /// `(bid - ask) / (bid + ask)`, zero when both are empty.
    pub fn get_imbalance_ratio(&self, depth: usize) -> (r: Decimal)
        requires
            self.imbalance_spec(depth) is Some,
        ensures
            Some(r) == self.imbalance_spec(depth),
    {
        let b = sum_volumes(&self.bids.top_desc(depth)).unwrap();
        let a = sum_volumes(&self.asks.top_asc(depth)).unwrap();
        imbalance(&b, &a).unwrap()
    }

    /// The imbalance ratio when it can be computed, else `None`.
    pub fn try_imbalance_ratio(&self, depth: usize) -> (r: Option<Decimal>)
        ensures
            r == self.imbalance_spec(depth),
    {
        let b = sum_volumes(&self.bids.top_desc(depth));
        let a = sum_volumes(&self.asks.top_asc(depth));
        match (b, a) {
            (Some(_), Some(_)) => {
                let fits = imbalance(&b.unwrap(), &a.unwrap()).is_some();
                if fits {
                    Some(self.get_imbalance_ratio(depth))
                } else {
                    None
                }
            },
            _ => None,
        }
    }

    /// Whether the imbalance metrics over `depth` levels can be computed.
    pub fn metrics_computable(&self, depth: usize) -> (b: bool)
        ensures
            b == self.metrics_fit(depth),
    {
        let bid_levels = self.bids.top_desc(depth);
        let ask_levels = self.asks.top_asc(depth);
        match (sum_volumes(&bid_levels), sum_volumes(&ask_levels)) {
            (Some(b), Some(a)) => imbalance(&b, &a).is_some() && vwap(&bid_levels, &b).is_some() && vwap(
                &ask_levels,
                &a,
            ).is_some(),
            _ => false,
        }
    }

    /// Imbalance metrics over the top `depth` levels per side, with the
    /// volume-weighted average price of each side.
    pub fn get_imbalance_metrics(&self, depth: usize) -> (m: ImbalanceMetrics)
        requires
            self.metrics_fit(depth),
        ensures
            self.metrics_are(depth, m),
    {
        let bid_levels = self.bids.top_desc(depth);
        let ask_levels = self.asks.top_asc(depth);
        let bid_volume = sum_volumes(&bid_levels).unwrap();
        let ask_volume = sum_volumes(&ask_levels).unwrap();
        let imbalance_ratio = imbalance(&bid_volume, &ask_volume).unwrap();
        let bid_vwap = vwap(&bid_levels, &bid_volume).unwrap();
        let ask_vwap = vwap(&ask_levels, &ask_volume).unwrap();
        ImbalanceMetrics {
            symbol: self.symbol.clone(),
            imbalance_ratio,
            bid_volume,
            ask_volume,
            depth_levels: depth,
            bid_vwap,
            ask_vwap,
            timestamp: utc_now_micros(),
        }
    }

    /// The imbalance metrics when they can be computed, else `None`.
    pub fn try_imbalance_metrics(&self, depth: usize) -> (r: Option<ImbalanceMetrics>)
        ensures
            r is Some <==> self.metrics_fit(depth),
            r matches Some(m) ==> self.metrics_are(depth, m),
    {
        if self.metrics_computable(depth) {
            Some(self.get_imbalance_metrics(depth))
        } else {
            None
        }
    }

    /// Whether the book pressure over `depth` levels can be computed.
    pub fn pressure_computable(&self, depth: usize) -> (b: bool)
        ensures
            b == self.pressure_fits(depth),
    {
        if !self.metrics_computable(depth) {
            return false;
        }
        let b = sum_volumes(&self.bids.top_desc(depth)).unwrap();
        let a = sum_volumes(&self.asks.top_asc(depth)).unwrap();
        match checked_add(&b, &a) {
            Some(t) => confidence(&t).is_some(),
            None => false,
        }
    }

    /// Book pressure over the top `depth` levels per side: the imbalance ratio
    /// as score, its signal, and a confidence growing with the total volume.
    pub fn get_book_pressure(&self, depth: usize) -> (p: BookPressure)
        requires
            self.pressure_fits(depth),
        ensures
            self.pressure_is(depth, p),
    {
        let metrics = self.get_imbalance_metrics(depth);
        let total_volume = checked_add(&metrics.bid_volume, &metrics.ask_volume).unwrap();
        let pressure_score = metrics.imbalance_ratio;
        let signal = pressure_signal(&pressure_score);
        let confidence = confidence(&total_volume).unwrap();
        BookPressure { symbol: self.symbol.clone(), pressure_score, signal, confidence, timestamp: utc_now_micros() }
    }

    /// The book pressure when it can be computed, else `None`.
    pub fn try_book_pressure(&self, depth: usize) -> (r: Option<BookPressure>)
        ensures
            r is Some <==> self.pressure_fits(depth),
            r matches Some(p) ==> self.pressure_is(depth, p),
    {
        if self.pressure_computable(depth) {
            Some(self.get_book_pressure(depth))
        } else {
            None
        }
    }
}

/// Computes `signal_of`.
fn pressure_signal(score: &Decimal) -> (s: PressureSignal)
    ensures
        s == signal_of(*score),
{
    if dec_lt(&dec_new(5, 1), score) {
        PressureSignal::StrongBuy
    } else if dec_lt(&dec_new(2, 1), score) {
        PressureSignal::WeakBuy
    } else if dec_lt(score, &dec_new(-5, 1)) {
        PressureSignal::StrongSell
    } else if dec_lt(score, &dec_new(-2, 1)) {
        PressureSignal::WeakSell
    } else {
        PressureSignal::Neutral
    }
}

/// Computes `confidence_of`.
fn confidence(total: &Decimal) -> (r: Option<Decimal>)
    ensures
        r == confidence_of(*total),
{
    if dec_is_zero(total) {
        Some(dec_from_i64(0))
    } else {
        match checked_add(total, &dec_from_i64(100)) {
            Some(d) => match checked_div(total, &d) {
                Some(n) => {
                    let one = dec_from_i64(1);
                    Some(if dec_lt(&one, &n) { one } else { n })
                },
                None => None,
            },
            None => None,
        }
    }
}

/// The levels of the entries whose price value lies in `[lo, hi]`, in order.
pub open spec fn in_range(s: Seq<Entry>, lo: int, hi: int) -> Seq<PriceLevel>
    decreases s.len(),
{
    if s.len() == 0 {
        Seq::empty()
    } else {
        let rest = in_range(s.drop_last(), lo, hi);
        if lo <= units(s.last().0) <= hi {
            rest.push(s.last().1)
        } else {
            rest
        }
    }
}

/// Keeps the levels whose price lies in `[lo, hi]`.
fn levels_in_range(v: &Vec<Entry>, lo: &Decimal, hi: &Decimal) -> (r: Vec<PriceLevel>)
    ensures
        r@ == in_range(v@, units(*lo), units(*hi)),
{
    let mut out: Vec<PriceLevel> = Vec::new();
    let mut i: usize = 0;
    while i < v.len()
        invariant
            i <= v@.len(),
            out@ == in_range(v@.take(i as int), units(*lo), units(*hi)),
        decreases v@.len() - i,
    {
        assert(v@.take(i + 1).drop_last() =~= v@.take(i as int));
        let e = v[i];
        if !dec_lt(&e.0, lo) && !dec_lt(hi, &e.0) {
            out.push(e.1);
        }
        i = i + 1;
    }
    assert(v@.take(v@.len() as int) =~= v@);
    out
}

/// Filtered order book within a price range around the mid price.
#[derive(Debug)]
pub struct FilteredBook {
    pub symbol: String,
    /// Bid levels within range, highest first
    pub bids: Vec<PriceLevel>,
    /// Ask levels within range, lowest first
    pub asks: Vec<PriceLevel>,
    /// Mid price at time of filtering
    pub mid_price: Decimal,
    /// Range percentage used for filtering
    pub range_percent: Decimal,
    /// Minimum price in range
    pub price_min: Decimal,
    /// Maximum price in range
    pub price_max: Decimal,
    /// Microseconds since the Unix epoch (UTC)
    pub timestamp: i64,
}

/// The range `mid ± mid × percent / 100`; `None` without a mid price or on overflow.
pub open spec fn range_around(mid: Option<Decimal>, percent: Decimal) -> Option<(Decimal, Decimal, Decimal)> {
    match mid {
        Some(m) => match dec_mul(m, percent) {
            Some(x) => match dec_div(x, dec_of_int(100)) {
                Some(r) => match (dec_sub(m, r), dec_add(m, r)) {
                    (Some(lo), Some(hi)) => Some((m, lo, hi)),
                    _ => None,
                },
                None => None,
            },
            None => None,
        },
        None => None,
    }
}

impl OrderBook {
    /// Total volume of each side over all its levels (lowest price first).
    pub open spec fn totals(&self) -> (Option<Decimal>, Option<Decimal>) {
        (vol_total(self.bids@), vol_total(self.asks@))
    }

    /// Total bid and ask volume over all levels.
    pub fn get_total_volume(&self) -> (r: (Decimal, Decimal))
        requires
            self.totals().0 is Some,
            self.totals().1 is Some,
        ensures
            Some(r.0) == self.totals().0,
            Some(r.1) == self.totals().1,
    {
        let b = self.bids.top_asc(self.bids.len());
        let a = self.asks.top_asc(self.asks.len());
        assert(b@ =~= self.bids@);
        assert(a@ =~= self.asks@);
        (sum_volumes(&b).unwrap(), sum_volumes(&a).unwrap())
    }

    /// The total volumes when they can be computed, else `None`.
    pub fn try_total_volume(&self) -> (r: Option<(Decimal, Decimal)>)
        ensures
            r is Some <==> (self.totals().0 is Some && self.totals().1 is Some),
            r matches Some(t) ==> Some(t.0) == self.totals().0 && Some(t.1) == self.totals().1,
    {
        let b = self.bids.top_asc(self.bids.len());
        let a = self.asks.top_asc(self.asks.len());
        assert(b@ =~= self.bids@);
        assert(a@ =~= self.asks@);
        if sum_volumes(&b).is_some() && sum_volumes(&a).is_some() {
            Some(self.get_total_volume())
        } else {
            None
        }
    }

    /// The levels within `percent` % of the mid price: bids highest first,
    /// asks lowest first. `None` without a mid price, or when the range
    /// arithmetic overflows.
    pub fn filter_by_spread(&self, percent: Decimal) -> (r: Option<FilteredBook>)
        ensures
            r is Some <==> range_around(mid_of(self.bids@, self.asks@), percent) is Some,
            r matches Some(f) ==> {
                let (m, lo, hi) = range_around(mid_of(self.bids@, self.asks@), percent).unwrap();
                &&& f.symbol@ == self.symbol@
                &&& f.mid_price == m
                &&& f.range_percent == percent
                &&& f.price_min == lo
                &&& f.price_max == hi
                &&& f.bids@ == in_range(top_desc(self.bids@, self.bids@.len() as int), units(lo), units(hi))
                &&& f.asks@ == in_range(self.asks@, units(lo), units(hi))
                &&& f.timestamp == self.last_update
            },
    {
        let mid = match self.get_mid_price() {
            Some(m) => m,
            None => return None,
        };
        let range = match checked_mul(&mid, &percent) {
            Some(x) => match checked_div(&x, &dec_from_i64(100)) {
                Some(r) => r,
                None => return None,
            },
            None => return None,
        };
        let (price_min, price_max) = match (checked_sub(&mid, &range), checked_add(&mid, &range)) {
            (Some(lo), Some(hi)) => (lo, hi),
            _ => return None,
        };
        let bid_levels = self.bids.top_desc(self.bids.len());
        let ask_levels = self.asks.top_asc(self.asks.len());
        assert(ask_levels@ =~= self.asks@);
        let bids = levels_in_range(&bid_levels, &price_min, &price_max);
        let asks = levels_in_range(&ask_levels, &price_min, &price_max);
        Some(
            FilteredBook {
                symbol: self.symbol.clone(),
                bids,
                asks,
                mid_price: mid,
                range_percent: percent,
                price_min,
                price_max,
                timestamp: self.last_update,
            },
        )
    }
}

/// A single aggregated price level.
#[derive(Debug, Clone, Copy)]
pub struct AggregatedLevel {
    /// Price bucket (rounded down to the tick size)
    pub price: Decimal,
    /// Total volume at this price bucket
    pub volume: Decimal,
    /// Number of levels aggregated into this bucket
    pub order_count: usize,
}

/// Aggregated order book with price levels grouped by tick size.
#[derive(Debug)]
pub struct AggregatedBook {
    pub symbol: String,
    /// Aggregated bid levels, highest bucket first
    pub bids: Vec<AggregatedLevel>,
    /// Aggregated ask levels, lowest bucket first
    pub asks: Vec<AggregatedLevel>,
    /// Tick size used for aggregation
    pub tick_size: Decimal,
    /// Microseconds since the Unix epoch (UTC)
    pub timestamp: i64,
}

/// The bucket of a price: `floor(price / tick) × tick`; `None` for a zero
/// tick or on overflow.
pub open spec fn bucket_of(price: Decimal, tick: Decimal) -> Option<Decimal> {
    match dec_div(price, tick) {
        Some(q) => dec_mul(dec_floor(q), tick),
        None => None,
    }
}

/// Whether buckets are in strictly increasing price order.
pub open spec fn buckets_ascending(s: Seq<AggregatedLevel>) -> bool {
    forall|i: int, j: int| 0 <= i < j < s.len() ==> units(#[trigger] s[i].price) < units(#[trigger] s[j].price)
}

/// Where a bucket of price value `k` belongs.
pub open spec fn bucket_pos(s: Seq<AggregatedLevel>, k: int) -> int
    decreases s.len(),
{
    if s.len() == 0 || units(s[0].price) >= k {
        0
    } else {
        1 + bucket_pos(s.drop_first(), k)
    }
}

/// The buckets after adding a level of volume `vol` to the bucket at price
/// `bucket` (a new bucket starts from zero); `None` on overflow.
pub open spec fn bucket_add(s: Seq<AggregatedLevel>, bucket: Decimal, vol: Decimal) -> Option<Seq<AggregatedLevel>> {
    let p = bucket_pos(s, units(bucket));
    if p < s.len() && units(s[p].price) == units(bucket) {
        match dec_add(s[p].volume, vol) {
            Some(v) => Some(
                s.update(p, AggregatedLevel { price: s[p].price, volume: v, order_count: (s[p].order_count + 1) as usize }),
            ),
            None => None,
        }
    } else {
        match dec_add(zero(), vol) {
            Some(v) => Some(s.insert(p, AggregatedLevel { price: bucket, volume: v, order_count: 1 })),
            None => None,
        }
    }
}

/// The buckets of a side's levels taken in price order; `None` on a zero tick or overflow.
pub open spec fn buckets(levels: Seq<Entry>, tick: Decimal) -> Option<Seq<AggregatedLevel>>
    decreases levels.len(),
{
    if levels.len() == 0 {
        Some(Seq::empty())
    } else {
        match (buckets(levels.drop_last(), tick), bucket_of(levels.last().0, tick)) {
            (Some(b), Some(k)) => bucket_add(b, k, levels.last().1.volume),
            _ => None,
        }
    }
}

/// The buckets in reverse order (highest first).
pub open spec fn reversed(s: Seq<AggregatedLevel>) -> Seq<AggregatedLevel> {
    Seq::new(s.len(), |i: int| s[s.len() - 1 - i])
}

proof fn lemma_bucket_pos(s: Seq<AggregatedLevel>, k: int, p: int)
    requires
        buckets_ascending(s),
        0 <= p <= s.len(),
        forall|j: int| 0 <= j < p ==> units(#[trigger] s[j].price) < k,
        p == s.len() || units(s[p].price) >= k,
    ensures
        bucket_pos(s, k) == p,
    decreases p,
{
    if p > 0 {
        let t = s.drop_first();
        assert forall|j: int| 0 <= j < p - 1 implies units(#[trigger] t[j].price) < k by {
            assert(t[j] == s[j + 1]);
        }
        if p - 1 < t.len() {
            assert(t[p - 1] == s[p]);
        }
        assert(buckets_ascending(t)) by {
            assert forall|i: int, j: int| 0 <= i < j < t.len() implies units(#[trigger] t[i].price) < units(
                #[trigger] t[j].price,
            ) by {
                assert(t[i] == s[i + 1] && t[j] == s[j + 1]);
            }
        }
        lemma_bucket_pos(t, k, p - 1);
    }
}

/// Adds a level's volume to its bucket; `false` (with the buckets unchanged
/// in meaning) on overflow.
fn add_to_bucket(v: &mut Vec<AggregatedLevel>, bucket: Decimal, vol: Decimal, bound: usize) -> (ok: bool)
    requires
        buckets_ascending(old(v)@),
        bound >= 1,
        forall|j: int| 0 <= j < old(v)@.len() ==> #[trigger] old(v)@[j].order_count < bound,
    ensures
        ok == bucket_add(old(v)@, bucket, vol) is Some,
        ok ==> final(v)@ == bucket_add(old(v)@, bucket, vol).unwrap(),
        ok ==> buckets_ascending(final(v)@),
        ok ==> forall|j: int| 0 <= j < final(v)@.len() ==> #[trigger] final(v)@[j].order_count <= bound,
{
    let ghost s0 = v@;
    let mut p: usize = 0;
    while p < v.len() && dec_lt(&v[p].price, &bucket)
        invariant
            p <= v@.len(),
            v@ == s0,
            forall|j: int| 0 <= j < p ==> units(#[trigger] v@[j].price) < units(bucket),
        decreases v@.len() - p,
    {
        p = p + 1;
    }
    proof {
        lemma_bucket_pos(s0, units(bucket), p as int);
    }
    if p < v.len() && dec_eq(&v[p].price, &bucket) {
        let cur = v[p];
        match checked_add(&cur.volume, &vol) {
            Some(nv) => {
                v.set(p, AggregatedLevel { price: cur.price, volume: nv, order_count: cur.order_count + 1 });
                assert(buckets_ascending(v@)) by {
                    assert forall|i: int, j: int| 0 <= i < j < v@.len() implies units(#[trigger] v@[i].price) < units(
                        #[trigger] v@[j].price,
                    ) by {
                        assert(units(s0[i].price) < units(s0[j].price));
                    }
                }
                true
            },
            None => false,
        }
    } else {
        match checked_add(&dec_from_i64(0), &vol) {
            Some(nv) => {
                v.insert(p, AggregatedLevel { price: bucket, volume: nv, order_count: 1 });
                assert(buckets_ascending(v@)) by {
                    let s1 = v@;
                    assert forall|i: int, j: int| 0 <= i < j < s1.len() implies units(#[trigger] s1[i].price) < units(
                        #[trigger] s1[j].price,
                    ) by {
                        if j < p {
                            assert(s1[i] == s0[i] && s1[j] == s0[j]);
                        } else if j == p {
                            assert(s1[i] == s0[i]);
                        } else if i < p {
                            assert(s1[i] == s0[i] && s1[j] == s0[j - 1]);
                            assert(units(s0[j - 1].price) >= units(bucket));
                        } else if i == p {
                            assert(s1[j] == s0[j - 1]);
                            assert(units(s0[j - 1].price) >= units(bucket));
                        } else {
                            assert(s1[i] == s0[i - 1] && s1[j] == s0[j - 1]);
                        }
                    }
                }
                assert forall|j: int| 0 <= j < v@.len() implies #[trigger] v@[j].order_count <= bound by {
                    if j < p {
                        assert(v@[j] == s0[j]);
                    } else if j > p {
                        assert(v@[j] == s0[j - 1]);
                    }
                }
                true
            },
            None => false,
        }
    }
}

/// The buckets of a side; `None` on a zero tick or overflow.
fn bucket_levels(levels: &Vec<Entry>, tick: &Decimal) -> (r: Option<Vec<AggregatedLevel>>)
    ensures
        r is Some <==> buckets(levels@, *tick) is Some,
        r matches Some(b) ==> b@ == buckets(levels@, *tick).unwrap(),
{
    let mut out: Vec<AggregatedLevel> = Vec::new();
    let mut i: usize = 0;
    while i < levels.len()
        invariant
            i <= levels@.len(),
            Some(out@) == buckets(levels@.take(i as int), *tick),
            buckets_ascending(out@),
            forall|j: int| 0 <= j < out@.len() ==> #[trigger] out@[j].order_count <= i,
        decreases levels@.len() - i,
    {
        assert(levels@.take(i + 1).drop_last() =~= levels@.take(i as int));
        let e = levels[i];
        let bucket = match checked_div(&e.0, tick) {
            Some(q) => checked_mul(&floor(&q), tick),
            None => None,
        };
        let ok = match bucket {
            Some(k) => add_to_bucket(&mut out, k, e.1.volume, i + 1),
            None => false,
        };
        if !ok {
            proof {
                lemma_buckets_prefix(levels@, *tick, i + 1);
            }
            return None;
        }
        i = i + 1;
    }
    assert(levels@.take(levels@.len() as int) =~= levels@);
    Some(out)
}

/// A side whose buckets exist has buckets for every prefix.
proof fn lemma_buckets_prefix(levels: Seq<Entry>, tick: Decimal, i: int)
    requires
        0 <= i <= levels.len(),
    ensures
        buckets(levels, tick) is Some ==> buckets(levels.take(i), tick) is Some,
    decreases levels.len(),
{
    if i < levels.len() {
        assert(levels.drop_last().take(i) =~= levels.take(i));
        lemma_buckets_prefix(levels.drop_last(), tick, i);
    } else {
        assert(levels.take(i) =~= levels);
    }
}

/// The buckets in reverse order.
fn reverse_levels(v: &Vec<AggregatedLevel>) -> (r: Vec<AggregatedLevel>)
    ensures
        r@ == reversed(v@),
{
    let mut out: Vec<AggregatedLevel> = Vec::new();
    let n = v.len();
    let mut i: usize = 0;
    while i < n
        invariant
            n == v@.len(),
            i <= n,
            out@ =~= reversed(v@).take(i as int),
        decreases n - i,
    {
        out.push(v[n - 1 - i]);
        i = i + 1;
        assert(out@ =~= reversed(v@).take(i as int));
    }
    assert(reversed(v@).take(n as int) =~= reversed(v@));
    out
}

impl OrderBook {
    /// Whether the book aggregates by `tick_size` without a zero tick or an overflow.
    pub open spec fn aggregate_fits(&self, tick_size: Decimal) -> bool {
        &&& buckets(self.bids@, tick_size) is Some
        &&& buckets(self.asks@, tick_size) is Some
    }

    /// Whether the book can be aggregated by `tick_size`.
    pub fn aggregate_computable(&self, tick_size: Decimal) -> (b: bool)
        ensures
            b == self.aggregate_fits(tick_size),
    {
        let b = self.bids.top_asc(self.bids.len());
        let a = self.asks.top_asc(self.asks.len());
        assert(b@ =~= self.bids@);
        assert(a@ =~= self.asks@);
        bucket_levels(&b, &tick_size).is_some() && bucket_levels(&a, &tick_size).is_some()
    }

    /// Groups the levels into buckets of `tick_size`, summing volumes and
    /// counting levels per bucket: bids highest bucket first, asks lowest first.
    pub fn aggregate(&self, tick_size: Decimal) -> (r: AggregatedBook)
        requires
            self.aggregate_fits(tick_size),
        ensures
            r.symbol@ == self.symbol@,
            r.bids@ == reversed(buckets(self.bids@, tick_size).unwrap()),
            r.asks@ == buckets(self.asks@, tick_size).unwrap(),
            r.tick_size == tick_size,
    {
        let b = self.bids.top_asc(self.bids.len());
        let a = self.asks.top_asc(self.asks.len());
        assert(b@ =~= self.bids@);
        assert(a@ =~= self.asks@);
        let bid_buckets = bucket_levels(&b, &tick_size).unwrap();
        let ask_buckets = bucket_levels(&a, &tick_size).unwrap();
        AggregatedBook {
            symbol: self.symbol.clone(),
            bids: reverse_levels(&bid_buckets),
            asks: ask_buckets,
            tick_size,
            timestamp: utc_now_micros(),
        }
    }

    /// The aggregated book when it can be computed, else `None`.
    pub fn try_aggregate(&self, tick_size: Decimal) -> (r: Option<AggregatedBook>)
        ensures
            r is Some <==> self.aggregate_fits(tick_size),
            r matches Some(g) ==> g.bids@ == reversed(buckets(self.bids@, tick_size).unwrap()) && g.asks@ == buckets(
                self.asks@,
                tick_size,
            ).unwrap(),
    {
        if self.aggregate_computable(tick_size) {
            Some(self.aggregate(tick_size))
        } else {
            None
        }
    }
}

// ---------------------------------------------------------------------------
// Books by symbol
// ---------------------------------------------------------------------------

/// A side after a list of level updates, in order: a zero volume removes
/// the price, any other volume sets the level at the price.
pub open spec fn apply_levels(s: Seq<Entry>, ups: Seq<PriceLevel>) -> Seq<Entry>
    decreases ups.len(),
{
    if ups.len() == 0 {
        s
    } else {
        let prev = apply_levels(s, ups.drop_last());
        let u = ups.last();
        if dec_mantissa(u.volume) == 0 {
            removed(prev, u.price)
        } else {
            upsert(prev, u.price, u)
        }
    }
}

/// What the manager knows of one book.
pub struct BookView {
    pub symbol: Seq<char>,
    pub bids: Seq<Entry>,
    pub asks: Seq<Entry>,
    pub last_update: i64,
    pub checksum: Option<u32>,
}

impl OrderBook {
    /// What the book holds.
    pub open spec fn book_view(&self) -> BookView {
        BookView {
            symbol: self.symbol@,
            bids: self.bids@,
            asks: self.asks@,
            last_update: self.last_update,
            checksum: self.checksum,
        }
    }
}

/// The book a symbol's update meets: the tracked one or a new empty one.
pub open spec fn book_after(before: Option<BookView>, update: OrderBookUpdate) -> BookView {
    let (bids, asks) = match before {
        Some(b) => (b.bids, b.asks),
        None => (Seq::empty(), Seq::empty()),
    };
    BookView {
        symbol: update.symbol@,
        bids: apply_levels(bids, update.bids@),
        asks: apply_levels(asks, update.asks@),
        last_update: update.timestamp,
        checksum: update.checksum,
    }
}

/// The text the checksum measures for a list of entries: price, `:`, volume, per entry.
pub open spec fn checksum_text(levels: Seq<Entry>) -> Seq<char>
    decreases levels.len(),
{
    if levels.len() == 0 {
        Seq::empty()
    } else {
        checksum_text(levels.drop_last()) + dec_text(levels.last().0) + ":"@ + dec_text(levels.last().1.volume)
    }
}

/// Appends the checksum text of the entries.
fn push_checksum_text(out: &mut String, levels: &Vec<Entry>)
    ensures
        final(out)@ == old(out)@ + checksum_text(levels@),
{
    let mut i: usize = 0;
    while i < levels.len()
        invariant
            i <= levels@.len(),
            out@ == old(out)@ + checksum_text(levels@.take(i as int)),
        decreases levels@.len() - i,
    {
        assert(levels@.take(i + 1).drop_last() =~= levels@.take(i as int));
        proof {
            reveal_strlit(":");
        }
        let e = levels[i];
        let price = to_text(&e.0);
        let vol = to_text(&e.1.volume);
        out.append(price.as_str());
        out.append(":");
        out.append(vol.as_str());
        i = i + 1;
        assert(out@ =~= old(out)@ + checksum_text(levels@.take(i as int)));
    }
    assert(levels@.take(levels@.len() as int) =~= levels@);
}

/// Order book state for every symbol.
#[derive(Debug)]
pub struct OrderBookManager {
    books: Vec<OrderBook>,
}

impl OrderBookManager {
    /// The books, one per symbol, in the order the symbols first appeared.
    pub closed spec fn books(&self) -> Seq<BookView> {
        self.books@.map_values(|b: OrderBook| b.book_view())
    }

    /// The symbols tracked.
    pub open spec fn symbols(&self) -> Seq<Seq<char>> {
        self.books().map_values(|b: BookView| b.symbol)
    }

    /// Whether `i` is the slot of a symbol.
    pub open spec fn is_slot(&self, symbol: Seq<char>, i: int) -> bool {
        0 <= i < self.books().len() && self.books()[i].symbol == symbol
    }

    /// The book of a symbol, if tracked.
    pub open spec fn book_of(&self, symbol: Seq<char>) -> Option<BookView> {
        if exists|i: int| self.is_slot(symbol, i) {
            Some(self.books()[choose|i: int| self.is_slot(symbol, i)])
        } else {
            None
        }
    }

    /// Each symbol has at most one book.
    pub open spec fn wf(&self) -> bool {
        forall|i: int, j: int| 0 <= i < j < self.books().len() ==> #[trigger] self.books()[i].symbol != #[trigger] self.books()[j].symbol
    }

    /// A manager with no book.
    pub fn new() -> (m: Self)
        ensures
            m.wf(),
            m.books().len() == 0,
    {
        let m = OrderBookManager { books: Vec::new() };
        assert(m.books().len() == 0);
        m
    }

    /// In a well-formed manager a symbol has one slot.
    pub proof fn lemma_unique_slot(&self, symbol: Seq<char>, a: int, b: int)
        requires
            self.wf(),
            self.is_slot(symbol, a),
            self.is_slot(symbol, b),
        ensures
            a == b,
    {
        if a < b {
            assert(self.books()[a].symbol != self.books()[b].symbol);
        } else if b < a {
            assert(self.books()[b].symbol != self.books()[a].symbol);
        }
    }

    fn find(&self, symbol: &str) -> (r: Option<usize>)
        requires
            self.wf(),
        ensures
            match r {
                Some(i) => self.is_slot(symbol@, i as int) && self.book_of(symbol@) == Some(self.books()[i as int]),
                None => self.book_of(symbol@) is None,
            },
    {
        let key = symbol.to_string();
        let mut i: usize = 0;
        while i < self.books.len()
            invariant
                i <= self.books@.len(),
                self.wf(),
                key@ == symbol@,
                forall|j: int| 0 <= j < i ==> self.books()[j].symbol != symbol@,
            decreases self.books@.len() - i,
        {
            assert(self.books()[i as int] == self.books@[i as int].book_view());
            if self.books[i].symbol == key {
                assert(self.is_slot(symbol@, i as int));
                proof {
                    let k = choose|k: int| self.is_slot(symbol@, k);
                    self.lemma_unique_slot(symbol@, i as int, k);
                }
                return Some(i);
            }
            i = i + 1;
        }
        None
    }

    /// Applies an update to the book of its symbol (a new book for a new
    /// symbol): zero volumes remove levels, others set them; then the update's
    /// timestamp and checksum are recorded. The book stays in price order, so
    /// the result is always `Ok` with the updated book.
    pub fn apply_update(&mut self, update: OrderBookUpdate) -> (r: Result<OrderBook, ParseError>)
        requires
            old(self).wf(),
        ensures
            final(self).wf(),
            ({
                let nb = book_after(old(self).book_of(update.symbol@), update);
                &&& r matches Ok(b) && b.book_view() == nb
                &&& final(self).book_of(update.symbol@) == Some(nb)
                &&& forall|sym: Seq<char>| sym != update.symbol@ ==> #[trigger] final(self).book_of(sym) == old(self).book_of(sym)
            }),
    {
        let ghost m0 = *self;
        let ghost before = m0.book_of(update.symbol@);
        let i = match self.find(update.symbol.as_str()) {
            Some(i) => i,
            None => {
                self.books.push(OrderBook::new(update.symbol.as_str()));
                proof {
                    assert(self.books() =~= m0.books().push(self.books@[self.books@.len() - 1].book_view()));
                }
                self.books.len() - 1
            },
        };
        let ghost m1 = *self;
        assert(m1.wf()) by {
            if before is None {
                assert forall|a: int, b: int| 0 <= a < b < m1.books().len() implies #[trigger] m1.books()[a].symbol
                    != #[trigger] m1.books()[b].symbol by {
                    if b == m1.books().len() - 1 {
                        assert(!m0.is_slot(update.symbol@, a));
                    } else {
                        assert(m1.books()[a] == m0.books()[a] && m1.books()[b] == m0.books()[b]);
                    }
                }
            }
        }
        assert(m1.books()[i as int].symbol == update.symbol@);
        let ghost start_bids = if before is Some { before.unwrap().bids } else { Seq::<Entry>::empty() };
        let ghost start_asks = if before is Some { before.unwrap().asks } else { Seq::<Entry>::empty() };
        assert(m1.books()[i as int].bids == start_bids);
        assert(m1.books()[i as int].asks == start_asks);
        let mut book = self.books.remove(i);
        assert(book.book_view() == m1.books()[i as int]);
        let mut k: usize = 0;
        while k < update.bids.len()
            invariant
                k <= update.bids@.len(),
                book.symbol@ == update.symbol@,
                book.asks@ == start_asks,
                book.bids@ == apply_levels(start_bids, update.bids@.take(k as int)),
            decreases update.bids@.len() - k,
        {
            assert(update.bids@.take(k + 1).drop_last() =~= update.bids@.take(k as int));
            let lvl = update.bids[k];
            if dec_is_zero(&lvl.volume) {
                book.bids.remove(&lvl.price);
            } else {
                book.bids.insert(lvl.price, lvl);
            }
            k = k + 1;
        }
        assert(update.bids@.take(update.bids@.len() as int) =~= update.bids@);
        k = 0;
        while k < update.asks.len()
            invariant
                k <= update.asks@.len(),
                book.symbol@ == update.symbol@,
                book.bids@ == apply_levels(start_bids, update.bids@),
                book.asks@ == apply_levels(start_asks, update.asks@.take(k as int)),
            decreases update.asks@.len() - k,
        {
            assert(update.asks@.take(k + 1).drop_last() =~= update.asks@.take(k as int));
            let lvl = update.asks[k];
            if dec_is_zero(&lvl.volume) {
                book.asks.remove(&lvl.price);
            } else {
                book.asks.insert(lvl.price, lvl);
            }
            k = k + 1;
        }
        assert(update.asks@.take(update.asks@.len() as int) =~= update.asks@);
        book.last_update = update.timestamp;
        book.checksum = update.checksum;
        let checked = validate_order_book(&book);
        let out = book.copy();
        let ghost nb = book.book_view();
        assert(nb == book_after(before, update));
        self.books.insert(i, book);
        assert(self.books() =~= m1.books().update(i as int, nb));
        assert(self.wf()) by {
            assert forall|a: int, b: int| 0 <= a < b < self.books().len() implies #[trigger] self.books()[a].symbol
                != #[trigger] self.books()[b].symbol by {
                assert(m1.books()[a].symbol != m1.books()[b].symbol);
            }
        }
        assert(self.is_slot(update.symbol@, i as int));
        assert(self.book_of(update.symbol@) == Some(nb)) by {
            let c = choose|c: int| self.is_slot(update.symbol@, c);
            if c != i {
                if c < i {
                    assert(self.books()[c].symbol != self.books()[i as int].symbol);
                } else {
                    assert(self.books()[i as int].symbol != self.books()[c].symbol);
                }
            }
        }
        assert forall|sym: Seq<char>| sym != update.symbol@ implies #[trigger] self.book_of(sym) == m0.book_of(sym) by {
            if exists|c: int| m0.is_slot(sym, c) {
                let c = choose|c: int| m0.is_slot(sym, c);
                assert(c != i);
                assert(self.is_slot(sym, c));
                let d = choose|d: int| self.is_slot(sym, d);
                if d != c {
                    if d < c {
                        assert(self.books()[d].symbol != self.books()[c].symbol);
                    } else {
                        assert(self.books()[c].symbol != self.books()[d].symbol);
                    }
                }
            } else {
                if exists|d: int| self.is_slot(sym, d) {
                    let d = choose|d: int| self.is_slot(sym, d);
                    assert(d != i);
                    if d < m0.books().len() {
                        assert(m0.is_slot(sym, d));
                    }
                }
            }
        }
        match checked {
            Ok(()) => Ok(out),
            Err(e) => Err(e),
        }
    }
}

impl OrderBookManager {
    /// A copy of the book of a symbol.
    pub fn get_order_book(&self, symbol: &str) -> (r: Option<OrderBook>)
        requires
            self.wf(),
        ensures
            match self.book_of(symbol@) {
                Some(b) => r matches Some(c) && c.book_view() == b,
                None => r is None,
            },
    {
        match self.find(symbol) {
            Some(i) => Some(self.books[i].copy()),
            None => None,
        }
    }

    /// The best bid and best ask prices of a symbol's book.
    pub fn get_best_bid_ask(&self, symbol: &str) -> (r: Option<(Option<Decimal>, Option<Decimal>)>)
        requires
            self.wf(),
        ensures
            match self.book_of(symbol@) {
                Some(b) => r == Some((highest(b.bids), lowest(b.asks))),
                None => r is None,
            },
    {
        match self.find(symbol) {
            Some(i) => {
                let b = &self.books[i];
                let best_bid = match b.bids.last() {
                    Some(e) => Some(e.0),
                    None => None,
                };
                let best_ask = match b.asks.first() {
                    Some(e) => Some(e.0),
                    None => None,
                };
                Some((best_bid, best_ask))
            },
            None => None,
        }
    }

    /// The top `depth` levels of each side of a symbol's book: bids highest
    /// first, asks lowest first.
    pub fn get_depth(&self, symbol: &str, depth: usize) -> (r: Option<(Vec<PriceLevel>, Vec<PriceLevel>)>)
        requires
            self.wf(),
        ensures
            match self.book_of(symbol@) {
                Some(b) => r matches Some(d) && d.0@ == top_desc(b.bids, depth as int).map_values(|e: Entry| e.1)
                    && d.1@ == top_asc(b.asks, depth as int).map_values(|e: Entry| e.1),
                None => r is None,
            },
    {
        match self.find(symbol) {
            Some(i) => Some(self.books[i].get_top_levels(depth)),
            None => None,
        }
    }

    /// The checksum of a symbol's book: the length in bytes of the text of
    /// its top ten bids (highest first) and top ten asks (lowest first), each
    /// written as price, `:`, volume.
    pub fn calculate_checksum(&self, symbol: &str) -> (r: Option<u32>)
        requires
            self.wf(),
        ensures
            match self.book_of(symbol@) {
                Some(b) => r == Some(
                    (encode_utf8(checksum_text(top_desc(b.bids, 10)) + checksum_text(top_asc(b.asks, 10))).len() as usize) as u32,
                ),
                None => r is None,
            },
    {
        match self.find(symbol) {
            Some(i) => {
                let b = &self.books[i];
                let mut text = String::new();
                push_checksum_text(&mut text, &b.bids.top_desc(10));
                push_checksum_text(&mut text, &b.asks.top_asc(10));
                assert(text@ =~= checksum_text(b.bids@.take(0)) + checksum_text(top_desc(b.bids@, 10)) + checksum_text(
                    top_asc(b.asks@, 10),
                ));
                assert(checksum_text(b.bids@.take(0)) == Seq::<char>::empty());
                assert(text@ =~= checksum_text(top_desc(b.bids@, 10)) + checksum_text(top_asc(b.asks@, 10)));
                let n = text.as_str().len();
                Some(n as u32)
            },
            None => None,
        }
    }

    /// Forgets the book of a symbol.
    pub fn clear_order_book(&mut self, symbol: &str)
        requires
            old(self).wf(),
        ensures
            final(self).wf(),
            final(self).book_of(symbol@) is None,
            forall|sym: Seq<char>| sym != symbol@ ==> #[trigger] final(self).book_of(sym) == old(self).book_of(sym),
    {
        let ghost m0 = *self;
        match self.find(symbol) {
            Some(i) => {
                let _ = self.books.remove(i);
                assert(self.books() =~= m0.books().remove(i as int));
                assert(self.wf()) by {
                    assert forall|a: int, b: int| 0 <= a < b < self.books().len() implies #[trigger] self.books()[a].symbol
                        != #[trigger] self.books()[b].symbol by {
                        if b < i {
                        } else if a < i {
                            assert(m0.books()[a].symbol != m0.books()[b + 1].symbol);
                        } else {
                            assert(m0.books()[a + 1].symbol != m0.books()[b + 1].symbol);
                        }
                    }
                }
                assert forall|c: int| !self.is_slot(symbol@, c) by {
                    if self.is_slot(symbol@, c) {
                        if c < i {
                            assert(m0.is_slot(symbol@, c));
                            m0.lemma_unique_slot(symbol@, c, i as int);
                        } else {
                            assert(m0.is_slot(symbol@, c + 1));
                            m0.lemma_unique_slot(symbol@, c + 1, i as int);
                        }
                    }
                }
                assert forall|sym: Seq<char>| sym != symbol@ implies #[trigger] self.book_of(sym) == m0.book_of(sym) by {
                    if exists|c: int| m0.is_slot(sym, c) {
                        let c = choose|c: int| m0.is_slot(sym, c);
                        let c2 = if c < i { c } else { c - 1 };
                        assert(c != i);
                        assert(self.is_slot(sym, c2));
                        let d = choose|d: int| self.is_slot(sym, d);
                        self.lemma_unique_slot(sym, c2, d);
                    } else if exists|d: int| self.is_slot(sym, d) {
                        let d = choose|d: int| self.is_slot(sym, d);
                        if d < i {
                            assert(m0.is_slot(sym, d));
                        } else {
                            assert(m0.is_slot(sym, d + 1));
                        }
                    }
                }
            },
            None => {},
        }
    }

    /// The symbols with a book, in the order they first appeared.
    pub fn get_symbols(&self) -> (r: Vec<String>)
        ensures
            r@.map_values(|s: String| s@) == self.symbols(),
    {
        let mut out: Vec<String> = Vec::new();
        let mut i: usize = 0;
        while i < self.books.len()
            invariant
                i <= self.books@.len(),
                out@.len() == i,
                forall|j: int| 0 <= j < i ==> #[trigger] out@[j]@ == self.symbols()[j],
            decreases self.books@.len() - i,
        {
            assert(self.symbols()[i as int] == self.books@[i as int].symbol@);
            out.push(self.books[i].symbol.clone());
            i = i + 1;
        }
        assert(out@.map_values(|s: String| s@) =~= self.symbols());
        out
    }
}

impl Default for OrderBookManager {
    fn default() -> (m: Self)
        ensures
            m.wf(),
            m.books().len() == 0,
    {
        OrderBookManager::new()
    }
}

/// Checks that the bids descend from the best (highest) and the asks ascend
/// from the best (lowest); the sides keep that order, so the check passes.
fn validate_order_book(book: &OrderBook) -> (r: Result<(), ParseError>)
    ensures
        r is Ok,
{
    proof {
        use_type_invariant(&book.bids);
        use_type_invariant(&book.asks);
    }
    let n = book.bids.len();
    let mut i: usize = 1;
    while i < n
        invariant
            n == book.bids@.len(),
            1 <= i,
            ascending(book.bids@),
        decreases n - i,
    {
        let hi = book.bids.entry(n - i);
        let lo = book.bids.entry(n - i - 1);
        if !dec_lt(&lo.0, &hi.0) {
            return Err(ParseError::MalformedMessage("Bid prices not in descending order".to_string()));
        }
        i = i + 1;
    }
    let m = book.asks.len();
    let mut j: usize = 1;
    while j < m
        invariant
            m == book.asks@.len(),
            1 <= j,
            ascending(book.asks@),
        decreases m - j,
    {
        let prev = book.asks.entry(j - 1);
        let cur = book.asks.entry(j);
        if !dec_lt(&prev.0, &cur.0) {
            return Err(ParseError::MalformedMessage("Ask prices not in ascending order".to_string()));
        }
        j = j + 1;
    }
    Ok(())
}

// ---------------------------------------------------------------------------
// Laws of the views
// ---------------------------------------------------------------------------

/// The ladder has one level per entry, each built from the entry and the
/// running total of the volumes up to it.
pub proof fn law_ladder_running_totals(levels: Seq<Entry>, total: Decimal, mid: Option<Decimal>, bid: bool)
    requires
        ladder_side(levels, total, mid, bid) is Some,
    ensures
        ladder_side(levels, total, mid, bid).unwrap().len() == levels.len(),
        forall|i: int| 0 <= i < levels.len() ==> Some(#[trigger] ladder_side(levels, total, mid, bid).unwrap()[i]) == ladder_level(
            levels[i],
            vol_total(levels.take(i + 1)).unwrap(),
            total,
            mid,
            bid,
        ),
    decreases levels.len(),
{
    let l = ladder_side(levels, total, mid, bid).unwrap();
    if levels.len() > 0 {
        let pre = levels.drop_last();
        law_ladder_running_totals(pre, total, mid, bid);
        let lp = ladder_side(pre, total, mid, bid).unwrap();
        assert(l == lp.push(ladder_level(levels.last(), vol_total(levels).unwrap(), total, mid, bid).unwrap()));
        assert forall|i: int| 0 <= i < levels.len() implies Some(#[trigger] l[i]) == ladder_level(
            levels[i],
            vol_total(levels.take(i + 1)).unwrap(),
            total,
            mid,
            bid,
        ) by {
            if i < lp.len() {
                assert(pre.take(i + 1) =~= levels.take(i + 1));
                assert(pre[i] == levels[i]);
            } else {
                assert(levels.take(i + 1) =~= levels);
            }
        }
    }
}

/// Each ladder level carries its entry's price and volume, and the running
/// total of the volumes from the best price down to it.
pub proof fn law_ladder_levels(levels: Seq<Entry>, total: Decimal, mid: Option<Decimal>, bid: bool, i: int)
    requires
        ladder_side(levels, total, mid, bid) is Some,
        0 <= i < levels.len(),
    ensures
        ladder_side(levels, total, mid, bid).unwrap()[i].price == levels[i].0,
        ladder_side(levels, total, mid, bid).unwrap()[i].volume == levels[i].1.volume,
        Some(ladder_side(levels, total, mid, bid).unwrap()[i].cumulative_volume) == vol_total(levels.take(i + 1)),
{
    law_ladder_running_totals(levels, total, mid, bid);
    lemma_ladder_prefix(levels, total, mid, bid, i + 1);
    let l = ladder_side(levels, total, mid, bid).unwrap();
    assert(Some(l[i]) == ladder_level(levels[i], vol_total(levels.take(i + 1)).unwrap(), total, mid, bid));
}

/// The best bids come highest price first and the best asks lowest price
/// first, each price strictly past the one before.
pub proof fn law_best_first(s: Seq<Entry>, n: int)
    requires
        ascending(s),
        n >= 0,
    ensures
        forall|i: int, j: int| 0 <= i < j < top_desc(s, n).len() ==> units(#[trigger] top_desc(s, n)[i].0) > units(
            #[trigger] top_desc(s, n)[j].0,
        ),
        forall|i: int, j: int| 0 <= i < j < top_asc(s, n).len() ==> units(#[trigger] top_asc(s, n)[i].0) < units(
            #[trigger] top_asc(s, n)[j].0,
        ),
{
    assert forall|i: int, j: int| 0 <= i < j < top_desc(s, n).len() implies units(#[trigger] top_desc(s, n)[i].0) > units(
        #[trigger] top_desc(s, n)[j].0,
    ) by {
        assert(top_desc(s, n)[i] == s[s.len() - 1 - i]);
        assert(top_desc(s, n)[j] == s[s.len() - 1 - j]);
        assert(units(s[s.len() - 1 - j].0) < units(s[s.len() - 1 - i].0));
    }
    assert forall|i: int, j: int| 0 <= i < j < top_asc(s, n).len() implies units(#[trigger] top_asc(s, n)[i].0) < units(
        #[trigger] top_asc(s, n)[j].0,
    ) by {
        assert(top_asc(s, n)[i] == s[i] && top_asc(s, n)[j] == s[j]);
    }
}

/// The confidence of the book pressure never exceeds one.
pub proof fn law_confidence_at_most_one(total: Decimal)
    requires
        confidence_of(total) is Some,
        dec_mantissa(dec_of_int(1)) == 1,
        dec_mantissa(total) != 0,
    ensures
        units(confidence_of(total).unwrap()) <= units(dec_of_int(1)),
{
}

} // verus!