//! The compact SDK interface: a builder for its settings, and the routing of
//! market data to the handlers registered per trading pair.
//!
//! Handlers are opaque values of the caller's types (`T` for tickers, `B`
//! for order books, `R` for trades); the SDK decides which of them a
//! message is for.

use crate::data::ConnectionState;
use crate::error::SdkError;
use vstd::prelude::*;

verus! {

broadcast use vstd::string::group_string_axioms;

/// Builder for the SDK's settings.
#[derive(Debug, Clone)]
pub struct KrakenSDKBuilder {
    endpoint: String,
    auto_reconnect: bool,
    max_reconnect_attempts: u32,
}

impl KrakenSDKBuilder {
    /// The endpoint to connect to.
    pub closed spec fn endpoint_view(&self) -> Seq<char> {
        self.endpoint@
    }

    /// Whether to reconnect after a disconnect.
    pub closed spec fn reconnects(&self) -> bool {
        self.auto_reconnect
    }

    /// The reconnect attempts allowed.
    pub closed spec fn attempts(&self) -> u32 {
        self.max_reconnect_attempts
    }

    /// The default settings: Kraken's public endpoint, reconnecting up to
    /// ten times.
    pub fn new() -> (b: Self)
        ensures
            b.endpoint_view() == "wss://ws.kraken.com"@,
            b.reconnects(),
            b.attempts() == 10,
    {
        KrakenSDKBuilder { endpoint: "wss://ws.kraken.com".to_string(), auto_reconnect: true, max_reconnect_attempts: 10 }
    }

    /// The settings with another endpoint.
    pub fn endpoint(self, url: &str) -> (b: Self)
        ensures
            b.endpoint_view() == url@,
            b.reconnects() == self.reconnects(),
            b.attempts() == self.attempts(),
    {
        let mut this = self;
        this.endpoint = url.to_string();
        this
    }

    /// The settings with reconnection on or off.
    pub fn auto_reconnect(self, enabled: bool) -> (b: Self)
        ensures
            b.endpoint_view() == self.endpoint_view(),
            b.reconnects() == enabled,
            b.attempts() == self.attempts(),
    {
        let mut this = self;
        this.auto_reconnect = enabled;
        this
    }

    /// The settings with another number of reconnect attempts.
    pub fn max_reconnect_attempts(self, attempts: u32) -> (b: Self)
        ensures
            b.endpoint_view() == self.endpoint_view(),
            b.reconnects() == self.reconnects(),
            b.attempts() == attempts,
    {
        let mut this = self;
        this.max_reconnect_attempts = attempts;
        this
    }

    /// The SDK with these settings, no handlers, disconnected.
    pub fn build<T, B, R>(self) -> (s: KrakenSDK<T, B, R>)
        ensures
            s.endpoint_view() == self.endpoint_view(),
            s.reconnects() == self.reconnects(),
            s.attempts() == self.attempts(),
            s.ticker_pairs() == Seq::<Seq<char>>::empty(),
            s.book_pairs() == Seq::<Seq<char>>::empty(),
            s.trade_pairs() == Seq::<Seq<char>>::empty(),
            s.state_view() == ConnectionState::Disconnected,
    {
        KrakenSDK::new(self.endpoint, self.auto_reconnect, self.max_reconnect_attempts)
    }
}

impl Default for KrakenSDKBuilder {
    fn default() -> (b: Self)
        ensures
            b.endpoint_view() == "wss://ws.kraken.com"@,
            b.reconnects(),
            b.attempts() == 10,
    {
        KrakenSDKBuilder::new()
    }
}

/// Whether a handler registered for `pair` takes a message for `symbol`:
/// the same pair, or the wildcard `*`.
pub open spec fn pair_matches(pair: Seq<char>, symbol: Seq<char>) -> bool {
    pair == symbol || pair == "*"@
}

/// The pairs with no repetition, in order of first appearance.
pub open spec fn first_occurrences(s: Seq<Seq<char>>) -> Seq<Seq<char>>
    decreases s.len(),
{
    if s.len() == 0 {
        s
    } else {
        let rest = first_occurrences(s.drop_last());
        if rest.contains(s.last()) {
            rest
        } else {
            rest.push(s.last())
        }
    }
}

/// The indices, in order, of the pairs matching a symbol.
pub open spec fn matching(pairs: Seq<Seq<char>>, symbol: Seq<char>) -> Seq<int>
    decreases pairs.len(),
{
    if pairs.len() == 0 {
        Seq::empty()
    } else {
        let rest = matching(pairs.drop_last(), symbol);
        if pair_matches(pairs.last(), symbol) {
            rest.push(pairs.len() - 1)
        } else {
            rest
        }
    }
}

/// The pairs other than one, in order.
pub open spec fn others(pairs: Seq<Seq<char>>, pair: Seq<char>) -> Seq<Seq<char>>
    decreases pairs.len(),
{
    if pairs.len() == 0 {
        pairs
    } else if pairs.last() == pair {
        others(pairs.drop_last(), pair)
    } else {
        others(pairs.drop_last(), pair).push(pairs.last())
    }
}

/// The SDK: settings, connection state and the handlers by pair.
pub struct KrakenSDK<T, B, R> {
    endpoint: String,
    auto_reconnect: bool,
    max_reconnect_attempts: u32,
    ticker_callbacks: Vec<(String, T)>,
    orderbook_callbacks: Vec<(String, u32, B)>,
    trade_callbacks: Vec<(String, R)>,
    connection_state: ConnectionState,
}

impl<T, B, R> KrakenSDK<T, B, R> {
    /// The endpoint.
    pub closed spec fn endpoint_view(&self) -> Seq<char> {
        self.endpoint@
    }

    /// Whether it reconnects.
    pub closed spec fn reconnects(&self) -> bool {
        self.auto_reconnect
    }

    /// The reconnect attempts allowed.
    pub closed spec fn attempts(&self) -> u32 {
        self.max_reconnect_attempts
    }

    /// The pairs of the ticker handlers, in order registered.
    pub closed spec fn ticker_pairs(&self) -> Seq<Seq<char>> {
        self.ticker_callbacks@.map_values(|e: (String, T)| e.0@)
    }

    /// The pairs of the order book handlers, in order registered.
    pub closed spec fn book_pairs(&self) -> Seq<Seq<char>> {
        self.orderbook_callbacks@.map_values(|e: (String, u32, B)| e.0@)
    }

    /// The pairs of the trade handlers, in order registered.
    pub closed spec fn trade_pairs(&self) -> Seq<Seq<char>> {
        self.trade_callbacks@.map_values(|e: (String, R)| e.0@)
    }

    /// The ticker handlers, in order registered.
    pub closed spec fn ticker_handlers(&self) -> Seq<T> {
        self.ticker_callbacks@.map_values(|e: (String, T)| e.1)
    }

    /// The trade handlers, in order registered.
    pub closed spec fn trade_handlers(&self) -> Seq<R> {
        self.trade_callbacks@.map_values(|e: (String, R)| e.1)
    }

    /// The order book handlers, in order registered.
    pub closed spec fn book_handlers(&self) -> Seq<B> {
        self.orderbook_callbacks@.map_values(|e: (String, u32, B)| e.2)
    }

    /// The connection state.
    pub closed spec fn state_view(&self) -> ConnectionState {
        self.connection_state
    }

    /// An SDK with the given settings, no handlers, disconnected.
    pub fn new(endpoint: String, auto_reconnect: bool, max_reconnect_attempts: u32) -> (s: Self)
        ensures
            s.endpoint_view() == endpoint@,
            s.reconnects() == auto_reconnect,
            s.attempts() == max_reconnect_attempts,
            s.ticker_pairs() == Seq::<Seq<char>>::empty(),
            s.book_pairs() == Seq::<Seq<char>>::empty(),
            s.trade_pairs() == Seq::<Seq<char>>::empty(),
            s.state_view() == ConnectionState::Disconnected,
    {
        let s = KrakenSDK {
            endpoint,
            auto_reconnect,
            max_reconnect_attempts,
            ticker_callbacks: Vec::new(),
            orderbook_callbacks: Vec::new(),
            trade_callbacks: Vec::new(),
            connection_state: ConnectionState::Disconnected,
        };
        assert(s.ticker_pairs() =~= Seq::<Seq<char>>::empty());
        assert(s.book_pairs() =~= Seq::<Seq<char>>::empty());
        assert(s.trade_pairs() =~= Seq::<Seq<char>>::empty());
        s
    }

    /// Registers a ticker handler for a pair (`*` for all).
    pub fn subscribe_ticker(&mut self, pair: &str, callback: T)
        ensures
            final(self).ticker_pairs() == old(self).ticker_pairs().push(pair@),
            final(self).ticker_handlers() == old(self).ticker_handlers().push(callback),
            final(self).book_pairs() == old(self).book_pairs(),
            final(self).trade_pairs() == old(self).trade_pairs(),
            final(self).state_view() == old(self).state_view(),
    {
        self.ticker_callbacks.push((pair.to_string(), callback));
        assert(self.ticker_pairs() =~= old(self).ticker_pairs().push(pair@));
        assert(self.ticker_handlers() =~= old(self).ticker_handlers().push(callback));
    }

    /// Registers an order book handler for a pair with a depth.
    pub fn subscribe_orderbook(&mut self, pair: &str, depth: u32, callback: B)
        ensures
            final(self).book_pairs() == old(self).book_pairs().push(pair@),
            final(self).book_handlers() == old(self).book_handlers().push(callback),
            final(self).ticker_pairs() == old(self).ticker_pairs(),
            final(self).trade_pairs() == old(self).trade_pairs(),
            final(self).state_view() == old(self).state_view(),
    {
        self.orderbook_callbacks.push((pair.to_string(), depth, callback));
        assert(self.book_pairs() =~= old(self).book_pairs().push(pair@));
        assert(self.book_handlers() =~= old(self).book_handlers().push(callback));
    }

    /// Registers a trade handler for a pair.
    pub fn subscribe_trades(&mut self, pair: &str, callback: R)
        ensures
            final(self).trade_pairs() == old(self).trade_pairs().push(pair@),
            final(self).trade_handlers() == old(self).trade_handlers().push(callback),
            final(self).ticker_pairs() == old(self).ticker_pairs(),
            final(self).book_pairs() == old(self).book_pairs(),
            final(self).state_view() == old(self).state_view(),
    {
        self.trade_callbacks.push((pair.to_string(), callback));
        assert(self.trade_pairs() =~= old(self).trade_pairs().push(pair@));
        assert(self.trade_handlers() =~= old(self).trade_handlers().push(callback));
    }

    /// Removes every handler of a pair.
    pub fn unsubscribe(&mut self, pair: &str)
        ensures
            final(self).ticker_pairs() == others(old(self).ticker_pairs(), pair@),
            final(self).book_pairs() == others(old(self).book_pairs(), pair@),
            final(self).trade_pairs() == others(old(self).trade_pairs(), pair@),
            final(self).state_view() == old(self).state_view(),
    {
        let key = pair.to_string();
        let mut tickers: Vec<(String, T)> = Vec::new();
        while self.ticker_callbacks.len() > 0
            invariant
                key@ == pair@,
                others(old(self).ticker_pairs(), pair@) == tickers@.map_values(|e: (String, T)| e.0@)
                    + others(self.ticker_pairs(), pair@),
                self.book_pairs() == old(self).book_pairs(),
                self.trade_pairs() == old(self).trade_pairs(),
                self.state_view() == old(self).state_view(),
            decreases self.ticker_callbacks@.len(),
        {
            let ghost before = self.ticker_pairs();
            let e = self.ticker_callbacks.remove(0);
            proof {
                assert(before =~= seq![e.0@] + self.ticker_pairs());
                lemma_others_prepend(e.0@, self.ticker_pairs(), pair@);
            }
            let ghost kept = tickers@.map_values(|x: (String, T)| x.0@);
            if e.0 != key {
                tickers.push(e);
                assert(tickers@.map_values(|x: (String, T)| x.0@) =~= kept.push(e.0@));
            }
        }
        self.ticker_callbacks = tickers;
        let mut books: Vec<(String, u32, B)> = Vec::new();
        while self.orderbook_callbacks.len() > 0
            invariant
                key@ == pair@,
                others(old(self).book_pairs(), pair@) == books@.map_values(|e: (String, u32, B)| e.0@)
                    + others(self.book_pairs(), pair@),
                self.ticker_pairs() == others(old(self).ticker_pairs(), pair@),
                self.trade_pairs() == old(self).trade_pairs(),
                self.state_view() == old(self).state_view(),
            decreases self.orderbook_callbacks@.len(),
        {
            let ghost before = self.book_pairs();
            let e = self.orderbook_callbacks.remove(0);
            proof {
                assert(before =~= seq![e.0@] + self.book_pairs());
                lemma_others_prepend(e.0@, self.book_pairs(), pair@);
            }
            let ghost kept = books@.map_values(|x: (String, u32, B)| x.0@);
            if e.0 != key {
                books.push(e);
                assert(books@.map_values(|x: (String, u32, B)| x.0@) =~= kept.push(e.0@));
            }
        }
        self.orderbook_callbacks = books;
        let mut trades: Vec<(String, R)> = Vec::new();
        while self.trade_callbacks.len() > 0
            invariant
                key@ == pair@,
                others(old(self).trade_pairs(), pair@) == trades@.map_values(|e: (String, R)| e.0@)
                    + others(self.trade_pairs(), pair@),
                self.ticker_pairs() == others(old(self).ticker_pairs(), pair@),
                self.book_pairs() == others(old(self).book_pairs(), pair@),
                self.state_view() == old(self).state_view(),
            decreases self.trade_callbacks@.len(),
        {
            let ghost before = self.trade_pairs();
            let e = self.trade_callbacks.remove(0);
            proof {
                assert(before =~= seq![e.0@] + self.trade_pairs());
                lemma_others_prepend(e.0@, self.trade_pairs(), pair@);
            }
            let ghost kept = trades@.map_values(|x: (String, R)| x.0@);
            if e.0 != key {
                trades.push(e);
                assert(trades@.map_values(|x: (String, R)| x.0@) =~= kept.push(e.0@));
            }
        }
        self.trade_callbacks = trades;
    }

    /// Connects: the state passes through `Connecting` to `Connected`.
    pub fn connect(&mut self) -> (r: Result<(), SdkError>)
        ensures
            r is Ok,
            final(self).state_view() == ConnectionState::Connected,
            final(self).ticker_pairs() == old(self).ticker_pairs(),
            final(self).book_pairs() == old(self).book_pairs(),
            final(self).trade_pairs() == old(self).trade_pairs(),
    {
        self.connection_state = ConnectionState::Connecting;
        self.connection_state = ConnectionState::Connected;
        Ok(())
    }

    /// Disconnects.
    pub fn disconnect(&mut self) -> (r: Result<(), SdkError>)
        ensures
            r is Ok,
            final(self).state_view() == ConnectionState::Disconnected,
            final(self).ticker_pairs() == old(self).ticker_pairs(),
            final(self).book_pairs() == old(self).book_pairs(),
            final(self).trade_pairs() == old(self).trade_pairs(),
    {
        self.connection_state = ConnectionState::Disconnected;
        Ok(())
    }

    /// Whether connected.
    pub fn is_connected(&self) -> (b: bool)
        ensures
            b == (self.state_view() == ConnectionState::Connected),
    {
        match self.connection_state {
            ConnectionState::Connected => true,
            _ => false,
        }
    }

    /// The connection state.
    pub fn state(&self) -> (s: ConnectionState)
        ensures
            s == self.state_view(),
    {
        self.connection_state
    }

    /// The pairs with a handler, each once, tickers first, then order
    /// books, then trades, in order of registration.
    pub fn subscribed_pairs(&self) -> (r: Vec<String>)
        ensures
            r@.map_values(|s: String| s@) == first_occurrences(
                self.ticker_pairs() + self.book_pairs() + self.trade_pairs(),
            ),
    {
        let ghost all = self.ticker_pairs() + self.book_pairs() + self.trade_pairs();
        let mut pairs: Vec<String> = Vec::new();
        let mut i: usize = 0;
        while i < self.ticker_callbacks.len()
            invariant
                i <= self.ticker_callbacks@.len(),
                all == self.ticker_pairs() + self.book_pairs() + self.trade_pairs(),
                pairs@.map_values(|s: String| s@) == first_occurrences(all.take(i as int)),
            decreases self.ticker_callbacks@.len() - i,
        {
            assert(all.take(i + 1).drop_last() =~= all.take(i as int));
            assert(all.take(i + 1).last() == self.ticker_pairs()[i as int]);
            add_new(&mut pairs, &self.ticker_callbacks[i].0);
            i = i + 1;
        }
        let t = self.ticker_callbacks.len();
        let mut j: usize = 0;
        while j < self.orderbook_callbacks.len()
            invariant
                j <= self.orderbook_callbacks@.len(),
                t == self.ticker_pairs().len(),
                all == self.ticker_pairs() + self.book_pairs() + self.trade_pairs(),
                pairs@.map_values(|s: String| s@) == first_occurrences(all.take(t + j)),
            decreases self.orderbook_callbacks@.len() - j,
        {
            assert(all.take(t + j + 1).drop_last() =~= all.take(t + j));
            assert(all.take(t + j + 1).last() == self.book_pairs()[j as int]);
            add_new(&mut pairs, &self.orderbook_callbacks[j].0);
            j = j + 1;
        }
        let b = self.orderbook_callbacks.len();
        let mut k: usize = 0;
        while k < self.trade_callbacks.len()
            invariant
                k <= self.trade_callbacks@.len(),
                t == self.ticker_pairs().len(),
                b == self.book_pairs().len(),
                all == self.ticker_pairs() + self.book_pairs() + self.trade_pairs(),
                pairs@.map_values(|s: String| s@) == first_occurrences(all.take(t + b + k)),
            decreases self.trade_callbacks@.len() - k,
        {
            assert(all.take(t + b + k + 1).drop_last() =~= all.take(t + b + k));
            assert(all.take(t + b + k + 1).last() == self.trade_pairs()[k as int]);
            add_new(&mut pairs, &self.trade_callbacks[k].0);
            k = k + 1;
        }
        assert(all.take(t + b + k) =~= all);
        pairs
    }

    /// The ticker handlers for a message of a symbol, in order registered.
    pub fn ticker_targets(&self, symbol: &str) -> (r: Vec<&T>)
        ensures
            r@.len() == matching(self.ticker_pairs(), symbol@).len(),
            forall|i: int| 0 <= i < r@.len() ==> *r@[i] == self.ticker_handlers()[matching(self.ticker_pairs(), symbol@)[i]],
    {
        let ghost pairs = self.ticker_pairs();
        let mut out: Vec<&T> = Vec::new();
        let mut i: usize = 0;
        while i < self.ticker_callbacks.len()
            invariant
                i <= self.ticker_callbacks@.len(),
                pairs == self.ticker_pairs(),
                out@.len() == matching(pairs.take(i as int), symbol@).len(),
                forall|j: int| 0 <= j < out@.len() ==> *out@[j] == self.ticker_handlers()[matching(pairs.take(i as int), symbol@)[j]],
            decreases self.ticker_callbacks@.len() - i,
        {
            assert(pairs.take(i + 1).drop_last() =~= pairs.take(i as int));
            assert(pairs.take(i + 1).last() == pairs[i as int]);
            if takes(&self.ticker_callbacks[i].0, symbol) {
                out.push(&self.ticker_callbacks[i].1);
            }
            i = i + 1;
        }
        assert(pairs.take(i as int) =~= pairs);
        out
    }

    /// The order book handlers for a message of a symbol, in order registered.
    pub fn orderbook_targets(&self, symbol: &str) -> (r: Vec<&B>)
        ensures
            r@.len() == matching(self.book_pairs(), symbol@).len(),
            forall|i: int| 0 <= i < r@.len() ==> *r@[i] == self.book_handlers()[matching(self.book_pairs(), symbol@)[i]],
    {
        let ghost pairs = self.book_pairs();
        let mut out: Vec<&B> = Vec::new();
        let mut i: usize = 0;
        while i < self.orderbook_callbacks.len()
            invariant
                i <= self.orderbook_callbacks@.len(),
                pairs == self.book_pairs(),
                out@.len() == matching(pairs.take(i as int), symbol@).len(),
                forall|j: int| 0 <= j < out@.len() ==> *out@[j] == self.book_handlers()[matching(pairs.take(i as int), symbol@)[j]],
            decreases self.orderbook_callbacks@.len() - i,
        {
            assert(pairs.take(i + 1).drop_last() =~= pairs.take(i as int));
            assert(pairs.take(i + 1).last() == pairs[i as int]);
            if takes(&self.orderbook_callbacks[i].0, symbol) {
                out.push(&self.orderbook_callbacks[i].2);
            }
            i = i + 1;
        }
        assert(pairs.take(i as int) =~= pairs);
        out
    }

    /// The trade handlers for a message of a symbol, in order registered.
    pub fn trade_targets(&self, symbol: &str) -> (r: Vec<&R>)
        ensures
            r@.len() == matching(self.trade_pairs(), symbol@).len(),
            forall|i: int| 0 <= i < r@.len() ==> *r@[i] == self.trade_handlers()[matching(self.trade_pairs(), symbol@)[i]],
    {
        let ghost pairs = self.trade_pairs();
        let mut out: Vec<&R> = Vec::new();
        let mut i: usize = 0;
        while i < self.trade_callbacks.len()
            invariant
                i <= self.trade_callbacks@.len(),
                pairs == self.trade_pairs(),
                out@.len() == matching(pairs.take(i as int), symbol@).len(),
                forall|j: int| 0 <= j < out@.len() ==> *out@[j] == self.trade_handlers()[matching(pairs.take(i as int), symbol@)[j]],
            decreases self.trade_callbacks@.len() - i,
        {
            assert(pairs.take(i + 1).drop_last() =~= pairs.take(i as int));
            assert(pairs.take(i + 1).last() == pairs[i as int]);
            if takes(&self.trade_callbacks[i].0, symbol) {
                out.push(&self.trade_callbacks[i].1);
            }
            i = i + 1;
        }
        assert(pairs.take(i as int) =~= pairs);
        out
    }
}

/// Whether a handler for `pair` takes a message for `symbol`.
fn takes(pair: &String, symbol: &str) -> (b: bool)
    ensures
        b == pair_matches(pair@, symbol@),
{
    *pair == symbol.to_string() || *pair == "*".to_string()
}

/// Appends a pair unless it is already there.
fn add_new(pairs: &mut Vec<String>, p: &String)
    ensures
        final(pairs)@.map_values(|s: String| s@) == if old(pairs)@.map_values(|s: String| s@).contains(p@) {
            old(pairs)@.map_values(|s: String| s@)
        } else {
            old(pairs)@.map_values(|s: String| s@).push(p@)
        },
{
    let ghost views = pairs@.map_values(|s: String| s@);
    let mut i: usize = 0;
    while i < pairs.len()
        invariant
            i <= pairs@.len(),
            views == pairs@.map_values(|s: String| s@),
            pairs@ == old(pairs)@,
            forall|j: int| 0 <= j < i ==> views[j] != p@,
        decreases pairs@.len() - i,
    {
        if pairs[i] == *p {
            assert(views[i as int] == p@);
            return;
        }
        i = i + 1;
    }
    pairs.push(p.clone());
    assert(pairs@.map_values(|s: String| s@) =~= views.push(p@));
}

pub proof fn lemma_others_prepend(x: Seq<char>, rest: Seq<Seq<char>>, pair: Seq<char>)
    ensures
        others(seq![x] + rest, pair) == (if x == pair { Seq::empty() } else { seq![x] }) + others(rest, pair),
    decreases rest.len(),
{
    let pre: Seq<Seq<char>> = if x == pair { Seq::empty() } else { seq![x] };
    let s = seq![x] + rest;
    if rest.len() == 0 {
        assert(s.drop_last() =~= Seq::<Seq<char>>::empty());
        assert(s.last() == x);
        assert(others(Seq::<Seq<char>>::empty(), pair) =~= Seq::<Seq<char>>::empty());
        assert(pre + others(rest, pair) =~= pre);
        if x == pair {
            assert(others(s, pair) =~= Seq::<Seq<char>>::empty());
        } else {
            assert(others(s, pair) =~= seq![x]);
        }
    } else {
        assert(s.drop_last() =~= seq![x] + rest.drop_last());
        assert(s.last() == rest.last());
        lemma_others_prepend(x, rest.drop_last(), pair);
        let a = others(rest.drop_last(), pair);
        if rest.last() != pair {
            assert((pre + a).push(rest.last()) =~= pre + a.push(rest.last()));
        }
    }
}

/// After unsubscribing a pair, no handler of that pair is left.
pub proof fn law_unsubscribed_pair_gone(pairs: Seq<Seq<char>>, pair: Seq<char>)
    ensures
        !others(pairs, pair).contains(pair),
    decreases pairs.len(),
{
    if pairs.len() > 0 {
        law_unsubscribed_pair_gone(pairs.drop_last(), pair);
        let a = others(pairs.drop_last(), pair);
        if pairs.last() != pair {
            assert forall|i: int| 0 <= i < a.push(pairs.last()).len() implies a.push(pairs.last())[i] != pair by {
                if i < a.len() {
                    assert(a.contains(a[i]) ==> a[i] != pair);
                }
            }
        }
    }
}

/// The subscribed pairs name each pair once.
pub proof fn law_subscribed_pairs_distinct(pairs: Seq<Seq<char>>)
    ensures
        forall|i: int, j: int|
            0 <= i < j < first_occurrences(pairs).len() ==> first_occurrences(pairs)[i] != first_occurrences(pairs)[j],
    decreases pairs.len(),
{
    if pairs.len() > 0 {
        law_subscribed_pairs_distinct(pairs.drop_last());
        let a = first_occurrences(pairs.drop_last());
        if !a.contains(pairs.last()) {
            assert forall|i: int, j: int| 0 <= i < j < a.push(pairs.last()).len() implies a.push(pairs.last())[i]
                != a.push(pairs.last())[j] by {
                if j == a.len() {
                    assert(a.contains(a[i]));
                }
            }
        }
    }
}

} // verus!
