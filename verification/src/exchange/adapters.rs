//! The Kraken and Binance adapters, the choice of adapter by exchange, and
//! the manager of several exchanges at once.

use crate::error::SdkError;
use crate::exchange::{
    binance_capabilities, binance_caps, kraken_capabilities, kraken_caps, without, CoinbaseAdapter, Exchange,
    ExchangeCapabilities, ExchangeConfig, ExchangeStatus, SubscribedSymbols,
};
use crate::exchange::coinbase_caps;
use vstd::prelude::*;

verus! {

broadcast use vstd::string::group_string_axioms;

/// The symbols after subscribing `s`: added last unless already there.
pub open spec fn with_symbol(v: Seq<Seq<char>>, s: Seq<char>) -> Seq<Seq<char>> {
    if v.contains(s) {
        v
    } else {
        v.push(s)
    }
}

/// Kraken exchange adapter. Connecting and subscribing record the state
/// the adapter is in; the network work is the client's.
pub struct KrakenAdapter {
    config: ExchangeConfig,
    status: ExchangeStatus,
    subscribed: SubscribedSymbols,
}

impl KrakenAdapter {
    /// The subscriptions hold no symbol twice.
    pub closed spec fn wf(&self) -> bool {
        self.subscribed.wf()
    }

    /// Current status.
    pub closed spec fn current_status(&self) -> ExchangeStatus {
        self.status
    }

    /// Subscribed symbols, in subscription order.
    pub closed spec fn symbols(&self) -> Seq<Seq<char>> {
        self.subscribed.view_symbols()
    }

    /// The configuration.
    pub closed spec fn config_of(&self) -> ExchangeConfig {
        self.config
    }

    /// An adapter for Kraken's public endpoint, disconnected.
    pub fn new() -> (a: Self)
        ensures
            a.wf(),
            a.config_of().exchange == Exchange::Kraken,
            a.config_of().ws_endpoint@ == "wss://ws.kraken.com"@,
            a.config_of().rest_endpoint is None,
            a.config_of().api_key is None,
            a.config_of().api_secret is None,
            a.config_of().auto_reconnect,
            a.config_of().max_reconnect_attempts == 10,
            a.config_of().reconnect_delay_ms == 1000,
            a.current_status() == ExchangeStatus::Disconnected,
            a.symbols().len() == 0,
    {
        let mut config = ExchangeConfig::default();
        config.exchange = Exchange::Kraken;
        config.ws_endpoint = "wss://ws.kraken.com".to_string();
        Self::with_config(config)
    }

    /// An adapter with a configuration, disconnected.
    pub fn with_config(config: ExchangeConfig) -> (a: Self)
        ensures
            a.wf(),
            a.config_of() == config,
            a.current_status() == ExchangeStatus::Disconnected,
            a.symbols().len() == 0,
    {
        KrakenAdapter { config, status: ExchangeStatus::Disconnected, subscribed: SubscribedSymbols::new() }
    }

    /// The configuration.
    pub fn config(&self) -> (c: &ExchangeConfig)
        ensures
            *c == self.config_of(),
    {
        &self.config
    }

    /// The exchange served.
    pub fn exchange(&self) -> (e: Exchange)
        ensures
            e == Exchange::Kraken,
    {
        Exchange::Kraken
    }

    /// The adapter's capabilities.
    pub fn capabilities(&self) -> (c: ExchangeCapabilities)
        ensures
            c == kraken_caps(),
    {
        kraken_capabilities()
    }

    /// Current status.
    pub fn status(&self) -> (s: ExchangeStatus)
        ensures
            s == self.current_status(),
    {
        self.status
    }

    /// Connects: the adapter is connected.
    pub fn connect(&mut self) -> (r: Result<(), SdkError>)
        requires
            old(self).wf(),
        ensures
            r is Ok,
            final(self).wf(),
            final(self).current_status() == ExchangeStatus::Connected,
            final(self).symbols() == old(self).symbols(),
            final(self).config_of() == old(self).config_of(),
    {
        self.status = ExchangeStatus::Connecting;
        self.status = ExchangeStatus::Connected;
        Ok(())
    }

    /// Disconnects: the adapter is disconnected and subscribed to nothing.
    pub fn disconnect(&mut self) -> (r: Result<(), SdkError>)
        ensures
            r is Ok,
            final(self).wf(),
            final(self).current_status() == ExchangeStatus::Disconnected,
            final(self).symbols().len() == 0,
            final(self).config_of() == old(self).config_of(),
    {
        self.status = ExchangeStatus::Disconnected;
        self.subscribed.clear();
        Ok(())
    }

    /// Subscribes to a symbol's ticker.
    pub fn subscribe_ticker(&mut self, symbol: &String) -> (r: Result<(), SdkError>)
        requires
            old(self).wf(),
        ensures
            r is Ok,
            final(self).wf(),
            final(self).symbols() == with_symbol(old(self).symbols(), symbol@),
            final(self).current_status() == old(self).current_status(),
            final(self).config_of() == old(self).config_of(),
    {
        self.subscribed.add(symbol);
        Ok(())
    }

    /// Subscribes to a symbol's trades.
    pub fn subscribe_trades(&mut self, symbol: &String) -> (r: Result<(), SdkError>)
        requires
            old(self).wf(),
        ensures
            r is Ok,
            final(self).wf(),
            final(self).symbols() == with_symbol(old(self).symbols(), symbol@),
            final(self).current_status() == old(self).current_status(),
            final(self).config_of() == old(self).config_of(),
    {
        self.subscribed.add(symbol);
        Ok(())
    }

    /// Subscribes to a symbol's order book.
    pub fn subscribe_orderbook(&mut self, symbol: &String, _depth: u32) -> (r: Result<(), SdkError>)
        requires
            old(self).wf(),
        ensures
            r is Ok,
            final(self).wf(),
            final(self).symbols() == with_symbol(old(self).symbols(), symbol@),
            final(self).current_status() == old(self).current_status(),
            final(self).config_of() == old(self).config_of(),
    {
        self.subscribed.add(symbol);
        Ok(())
    }

    /// Drops a symbol from the subscriptions.
    pub fn unsubscribe(&mut self, symbol: &String) -> (r: Result<(), SdkError>)
        requires
            old(self).wf(),
        ensures
            r is Ok,
            final(self).wf(),
            final(self).symbols() == without(old(self).symbols(), symbol@),
            final(self).current_status() == old(self).current_status(),
            final(self).config_of() == old(self).config_of(),
    {
        self.subscribed.remove(symbol);
        Ok(())
    }

    /// The subscribed symbols, in subscription order.
    pub fn subscribed_symbols(&self) -> (r: Vec<String>)
        ensures
            r@.map_values(|s: String| s@) == self.symbols(),
    {
        self.subscribed.to_vec()
    }
}

impl Default for KrakenAdapter {
    fn default() -> (a: Self)
        ensures
            a.wf(),
            a.config_of().exchange == Exchange::Kraken,
            a.current_status() == ExchangeStatus::Disconnected,
            a.symbols().len() == 0,
    {
        KrakenAdapter::new()
    }
}

/// Binance exchange adapter (stub: not implemented beyond unsubscribing).
pub struct BinanceAdapter {
    config: ExchangeConfig,
    status: ExchangeStatus,
    subscribed: SubscribedSymbols,
}

impl BinanceAdapter {
    /// The subscriptions hold no symbol twice.
    pub closed spec fn wf(&self) -> bool {
        self.subscribed.wf()
    }

    /// Current status.
    pub closed spec fn current_status(&self) -> ExchangeStatus {
        self.status
    }

    /// Subscribed symbols, in subscription order.
    pub closed spec fn symbols(&self) -> Seq<Seq<char>> {
        self.subscribed.view_symbols()
    }

    /// The configuration.
    pub closed spec fn config_of(&self) -> ExchangeConfig {
        self.config
    }

    /// An adapter for Binance's stream endpoint, not implemented.
    pub fn new() -> (a: Self)
        ensures
            a.wf(),
            a.config_of().exchange == Exchange::Binance,
            a.config_of().ws_endpoint@ == "wss://stream.binance.com:9443/ws"@,
            a.config_of().rest_endpoint is None,
            a.config_of().api_key is None,
            a.config_of().api_secret is None,
            a.config_of().auto_reconnect,
            a.config_of().max_reconnect_attempts == 10,
            a.config_of().reconnect_delay_ms == 1000,
            a.current_status() == ExchangeStatus::NotImplemented,
            a.symbols().len() == 0,
    {
        let mut config = ExchangeConfig::default();
        config.exchange = Exchange::Binance;
        config.ws_endpoint = "wss://stream.binance.com:9443/ws".to_string();
        Self::with_config(config)
    }

    /// An adapter with a configuration, not implemented.
    pub fn with_config(config: ExchangeConfig) -> (a: Self)
        ensures
            a.wf(),
            a.config_of() == config,
            a.current_status() == ExchangeStatus::NotImplemented,
            a.symbols().len() == 0,
    {
        BinanceAdapter { config, status: ExchangeStatus::NotImplemented, subscribed: SubscribedSymbols::new() }
    }

    /// The configuration.
    pub fn config(&self) -> (c: &ExchangeConfig)
        ensures
            *c == self.config_of(),
    {
        &self.config
    }

    /// The exchange served.
    pub fn exchange(&self) -> (e: Exchange)
        ensures
            e == Exchange::Binance,
    {
        Exchange::Binance
    }

    /// The adapter's capabilities.
    pub fn capabilities(&self) -> (c: ExchangeCapabilities)
        ensures
            c == binance_caps(),
    {
        binance_capabilities()
    }

    /// Current status.
    pub fn status(&self) -> (s: ExchangeStatus)
        ensures
            s == self.current_status(),
    {
        self.status
    }

    /// Connecting is not implemented.
    pub fn connect(&mut self) -> (r: Result<(), SdkError>)
        ensures
            r matches Err(SdkError::NotImplemented(m)) && m@ == "Binance adapter"@,
            final(self).current_status() == ExchangeStatus::NotImplemented,
            final(self).symbols() == old(self).symbols(),
            final(self).wf() == old(self).wf(),
            final(self).config_of() == old(self).config_of(),
    {
        self.status = ExchangeStatus::NotImplemented;
        Err(SdkError::NotImplemented("Binance adapter".to_string()))
    }

    /// Disconnects: subscribed to nothing.
    pub fn disconnect(&mut self) -> (r: Result<(), SdkError>)
        ensures
            r is Ok,
            final(self).wf(),
            final(self).symbols().len() == 0,
            final(self).current_status() == old(self).current_status(),
            final(self).config_of() == old(self).config_of(),
    {
        self.subscribed.clear();
        Ok(())
    }

    /// Ticker subscriptions are not implemented.
    pub fn subscribe_ticker(&mut self, _symbol: &String) -> (r: Result<(), SdkError>)
        ensures
            r matches Err(SdkError::NotImplemented(m)) && m@ == "Binance ticker subscription"@,
            *final(self) == *old(self),
    {
        Err(SdkError::NotImplemented("Binance ticker subscription".to_string()))
    }

    /// Trade subscriptions are not implemented.
    pub fn subscribe_trades(&mut self, _symbol: &String) -> (r: Result<(), SdkError>)
        ensures
            r matches Err(SdkError::NotImplemented(m)) && m@ == "Binance trades subscription"@,
            *final(self) == *old(self),
    {
        Err(SdkError::NotImplemented("Binance trades subscription".to_string()))
    }

    /// Order book subscriptions are not implemented.
    pub fn subscribe_orderbook(&mut self, _symbol: &String, _depth: u32) -> (r: Result<(), SdkError>)
        ensures
            r matches Err(SdkError::NotImplemented(m)) && m@ == "Binance orderbook subscription"@,
            *final(self) == *old(self),
    {
        Err(SdkError::NotImplemented("Binance orderbook subscription".to_string()))
    }

    /// Drops a symbol from the subscriptions.
    pub fn unsubscribe(&mut self, symbol: &String) -> (r: Result<(), SdkError>)
        requires
            old(self).wf(),
        ensures
            r is Ok,
            final(self).wf(),
            final(self).symbols() == without(old(self).symbols(), symbol@),
            final(self).current_status() == old(self).current_status(),
            final(self).config_of() == old(self).config_of(),
    {
        self.subscribed.remove(symbol);
        Ok(())
    }

    /// The subscribed symbols, in subscription order.
    pub fn subscribed_symbols(&self) -> (r: Vec<String>)
        ensures
            r@.map_values(|s: String| s@) == self.symbols(),
    {
        self.subscribed.to_vec()
    }
}

impl Default for BinanceAdapter {
    fn default() -> (a: Self)
        ensures
            a.wf(),
            a.config_of().exchange == Exchange::Binance,
            a.current_status() == ExchangeStatus::NotImplemented,
            a.symbols().len() == 0,
    {
        BinanceAdapter::new()
    }
}

/// An adapter of one of the exchanges the SDK knows.
pub enum ExchangeAdapter {
    Kraken(KrakenAdapter),
    Binance(BinanceAdapter),
    Coinbase(CoinbaseAdapter),
}

/// The exchange an adapter serves.
pub open spec fn adapter_exchange(a: ExchangeAdapter) -> Exchange {
    match a {
        ExchangeAdapter::Kraken(_) => Exchange::Kraken,
        ExchangeAdapter::Binance(_) => Exchange::Binance,
        ExchangeAdapter::Coinbase(_) => Exchange::Coinbase,
    }
}

impl ExchangeAdapter {
    /// The adapter's subscriptions hold no symbol twice.
    pub open spec fn wf(&self) -> bool {
        match *self {
            ExchangeAdapter::Kraken(a) => a.wf(),
            ExchangeAdapter::Binance(a) => a.wf(),
            ExchangeAdapter::Coinbase(a) => a.wf(),
        }
    }

    /// The adapter's status.
    pub open spec fn current_status(&self) -> ExchangeStatus {
        match *self {
            ExchangeAdapter::Kraken(a) => a.current_status(),
            ExchangeAdapter::Binance(a) => a.current_status(),
            ExchangeAdapter::Coinbase(a) => a.current_status(),
        }
    }

    /// The exchange served.
    pub fn exchange(&self) -> (e: Exchange)
        ensures
            e == adapter_exchange(*self),
    {
        match self {
            ExchangeAdapter::Kraken(_) => Exchange::Kraken,
            ExchangeAdapter::Binance(_) => Exchange::Binance,
            ExchangeAdapter::Coinbase(_) => Exchange::Coinbase,
        }
    }

    /// The adapter's capabilities.
    pub fn capabilities(&self) -> (c: ExchangeCapabilities)
        ensures
            c == match adapter_exchange(*self) {
                Exchange::Kraken => kraken_caps(),
                Exchange::Binance => binance_caps(),
                _ => coinbase_caps(),
            },
    {
        match self {
            ExchangeAdapter::Kraken(a) => a.capabilities(),
            ExchangeAdapter::Binance(a) => a.capabilities(),
            ExchangeAdapter::Coinbase(a) => a.capabilities(),
        }
    }

    /// The adapter's status.
    pub fn status(&self) -> (s: ExchangeStatus)
        ensures
            s == self.current_status(),
    {
        match self {
            ExchangeAdapter::Kraken(a) => a.status(),
            ExchangeAdapter::Binance(a) => a.status(),
            ExchangeAdapter::Coinbase(a) => a.status(),
        }
    }

    /// Connects: Kraken connects; the stubs refuse.
    pub fn connect(&mut self) -> (r: Result<(), SdkError>)
        requires
            old(self).wf(),
        ensures
            final(self).wf(),
            adapter_exchange(*final(self)) == adapter_exchange(*old(self)),
            r is Ok <==> adapter_exchange(*old(self)) == Exchange::Kraken,
            r is Ok ==> final(self).current_status() == ExchangeStatus::Connected,
            r is Err ==> final(self).current_status() == ExchangeStatus::NotImplemented,
    {
        match self {
            ExchangeAdapter::Kraken(a) => a.connect(),
            ExchangeAdapter::Binance(a) => a.connect(),
            ExchangeAdapter::Coinbase(a) => a.connect(),
        }
    }

    /// Disconnects.
    pub fn disconnect(&mut self) -> (r: Result<(), SdkError>)
        requires
            old(self).wf(),
        ensures
            r is Ok,
            final(self).wf(),
            adapter_exchange(*final(self)) == adapter_exchange(*old(self)),
            adapter_exchange(*old(self)) == Exchange::Kraken ==> final(self).current_status()
                == ExchangeStatus::Disconnected,
            adapter_exchange(*old(self)) != Exchange::Kraken ==> final(self).current_status()
                == old(self).current_status(),
    {
        match self {
            ExchangeAdapter::Kraken(a) => a.disconnect(),
            ExchangeAdapter::Binance(a) => a.disconnect(),
            ExchangeAdapter::Coinbase(a) => a.disconnect(),
        }
    }
}

/// An adapter for an exchange: Kraken and Binance have their own; every
/// other exchange gets the Coinbase stub.
pub fn create_adapter(exchange: Exchange) -> (a: ExchangeAdapter)
    ensures
        a.wf(),
        adapter_exchange(a) == match exchange {
            Exchange::Kraken => Exchange::Kraken,
            Exchange::Binance => Exchange::Binance,
            _ => Exchange::Coinbase,
        },
        exchange == Exchange::Kraken ==> a.current_status() == ExchangeStatus::Disconnected,
        exchange != Exchange::Kraken ==> a.current_status() == ExchangeStatus::NotImplemented,
{
    match exchange {
        Exchange::Kraken => ExchangeAdapter::Kraken(KrakenAdapter::new()),
        Exchange::Binance => ExchangeAdapter::Binance(BinanceAdapter::new()),
        _ => ExchangeAdapter::Coinbase(CoinbaseAdapter::new()),
    }
}

/// The exchanges of adapters, in order.
pub open spec fn exchanges_of(v: Seq<ExchangeAdapter>) -> Seq<Exchange> {
    v.map_values(|a: ExchangeAdapter| adapter_exchange(a))
}

/// Adapters for several exchanges, at most one per exchange.
pub struct ExchangeManager {
    adapters: Vec<ExchangeAdapter>,
}

impl ExchangeManager {
    /// The adapters, in the order their exchanges were first added.
    pub closed spec fn adapters_view(&self) -> Seq<ExchangeAdapter> {
        self.adapters@
    }

    /// One adapter per exchange, each well formed.
    pub closed spec fn wf(&self) -> bool {
        &&& exchanges_of(self.adapters@).no_duplicates()
        &&& forall|i: int| 0 <= i < self.adapters@.len() ==> (#[trigger] self.adapters@[i]).wf()
    }

    /// No exchange.
    pub fn new() -> (m: Self)
        ensures
            m.wf(),
            m.adapters_view().len() == 0,
    {
        let m = ExchangeManager { adapters: Vec::new() };
        assert(exchanges_of(m.adapters@) =~= Seq::<Exchange>::empty());
        m
    }

    /// Where the adapter of an exchange is, if there is one.
    fn position(&self, exchange: Exchange) -> (r: Option<usize>)
        ensures
            match r {
                Some(i) => i < self.adapters@.len() && adapter_exchange(self.adapters@[i as int]) == exchange,
                None => !exchanges_of(self.adapters@).contains(exchange),
            },
    {
        let mut i: usize = 0;
        while i < self.adapters.len()
            invariant
                i <= self.adapters@.len(),
                forall|j: int| 0 <= j < i ==> adapter_exchange(#[trigger] self.adapters@[j]) != exchange,
            decreases self.adapters@.len() - i,
        {
            if self.adapters[i].exchange() == exchange {
                return Some(i);
            }
            i = i + 1;
        }
        assert forall|j: int| 0 <= j < self.adapters@.len() implies exchanges_of(self.adapters@)[j] != exchange by {
            assert(adapter_exchange(self.adapters@[j]) != exchange);
        }
        None
    }

    /// Adds an adapter; one already there for the same exchange is replaced
    /// in its place.
    pub fn add_exchange(&mut self, adapter: ExchangeAdapter)
        requires
            old(self).wf(),
            adapter.wf(),
        ensures
            final(self).wf(),
            exchanges_of(old(self).adapters_view()).contains(adapter_exchange(adapter)) ==> final(self).adapters_view()
                == old(self).adapters_view().update(
                exchanges_of(old(self).adapters_view()).index_of(adapter_exchange(adapter)),
                adapter,
            ),
            !exchanges_of(old(self).adapters_view()).contains(adapter_exchange(adapter))
                ==> final(self).adapters_view() == old(self).adapters_view().push(adapter),
    {
        let ghost ex = adapter_exchange(adapter);
        let ghost es = exchanges_of(old(self).adapters_view());
        match self.position(adapter.exchange()) {
            Some(i) => {
                proof {
                    assert(es[i as int] == ex);
                    es.index_of_first_ensures(ex);
                    let k = es.index_of(ex);
                    if k != i {
                        assert(es[k] == es[i as int]);
                    }
                }
                self.adapters.set(i, adapter);
                proof {
                    assert(exchanges_of(self.adapters@) =~= es);
                }
            },
            None => {
                self.adapters.push(adapter);
                proof {
                    assert(exchanges_of(self.adapters@) =~= es.push(ex));
                }
            },
        }
    }

    /// The exchanges served, in the order first added.
    pub fn exchanges(&self) -> (r: Vec<Exchange>)
        ensures
            r@ == exchanges_of(self.adapters_view()),
    {
        let mut r: Vec<Exchange> = Vec::new();
        let mut i: usize = 0;
        while i < self.adapters.len()
            invariant
                i <= self.adapters@.len(),
                r@ == exchanges_of(self.adapters@).take(i as int),
            decreases self.adapters@.len() - i,
        {
            r.push(self.adapters[i].exchange());
            i = i + 1;
            assert(r@ =~= exchanges_of(self.adapters@).take(i as int));
        }
        assert(exchanges_of(self.adapters@).take(i as int) =~= exchanges_of(self.adapters@));
        r
    }

    /// The status of every exchange, in the order first added.
    pub fn status_all(&self) -> (r: Vec<(Exchange, ExchangeStatus)>)
        ensures
            r@.len() == self.adapters_view().len(),
            forall|i: int|
                0 <= i < r@.len() ==> #[trigger] r@[i] == (
                    adapter_exchange(self.adapters_view()[i]),
                    self.adapters_view()[i].current_status(),
                ),
    {
        let mut r: Vec<(Exchange, ExchangeStatus)> = Vec::new();
        let mut i: usize = 0;
        while i < self.adapters.len()
            invariant
                i <= self.adapters@.len(),
                r@.len() == i,
                forall|k: int|
                    0 <= k < i ==> #[trigger] r@[k] == (
                        adapter_exchange(self.adapters@[k]),
                        self.adapters@[k].current_status(),
                    ),
            decreases self.adapters@.len() - i,
        {
            r.push((self.adapters[i].exchange(), self.adapters[i].status()));
            i = i + 1;
        }
        r
    }

    /// The adapter of an exchange, if added.
    pub fn get(&self, exchange: Exchange) -> (r: Option<&ExchangeAdapter>)
        ensures
            match r {
                Some(a) => adapter_exchange(*a) == exchange && self.adapters_view().contains(*a),
                None => !exchanges_of(self.adapters_view()).contains(exchange),
            },
    {
        match self.position(exchange) {
            Some(i) => Some(&self.adapters[i]),
            None => None,
        }
    }

    /// Connects every exchange, in the order first added; each result goes
    /// with its exchange.
    pub fn connect_all(&mut self) -> (r: Vec<(Exchange, Result<(), SdkError>)>)
        requires
            old(self).wf(),
        ensures
            final(self).wf(),
            exchanges_of(final(self).adapters_view()) == exchanges_of(old(self).adapters_view()),
            r@.len() == old(self).adapters_view().len(),
            forall|i: int|
                0 <= i < r@.len() ==> (#[trigger] r@[i]).0 == adapter_exchange(old(self).adapters_view()[i]) && (
                r@[i].1 is Ok <==> r@[i].0 == Exchange::Kraken),
    {
        let mut r: Vec<(Exchange, Result<(), SdkError>)> = Vec::new();
        let mut i: usize = 0;
        let n = self.adapters.len();
        while i < n
            invariant
                n == self.adapters@.len(),
                n == old(self).adapters@.len(),
                i <= n,
                r@.len() == i,
                exchanges_of(self.adapters@) == exchanges_of(old(self).adapters@),
                forall|k: int| 0 <= k < n ==> (#[trigger] self.adapters@[k]).wf(),
                forall|k: int|
                    0 <= k < i ==> (#[trigger] r@[k]).0 == adapter_exchange(old(self).adapters@[k]) && (r@[k].1 is Ok
                        <==> r@[k].0 == Exchange::Kraken),
                exchanges_of(old(self).adapters@).no_duplicates(),
            decreases n - i,
        {
            let mut a = self.adapters.remove(i);
            let ghost before = exchanges_of(old(self).adapters@);
            assert(adapter_exchange(a) == before[i as int]);
            let e = a.exchange();
            let result = a.connect();
            self.adapters.insert(i, a);
            proof {
                assert(exchanges_of(self.adapters@) =~= before);
            }
            r.push((e, result));
            i = i + 1;
        }
        r
    }

    /// Disconnects every exchange, in the order first added.
    pub fn disconnect_all(&mut self) -> (r: Vec<(Exchange, Result<(), SdkError>)>)
        requires
            old(self).wf(),
        ensures
            final(self).wf(),
            exchanges_of(final(self).adapters_view()) == exchanges_of(old(self).adapters_view()),
            r@.len() == old(self).adapters_view().len(),
            forall|i: int|
                0 <= i < r@.len() ==> (#[trigger] r@[i]).0 == adapter_exchange(old(self).adapters_view()[i])
                    && r@[i].1 is Ok,
    {
        let mut r: Vec<(Exchange, Result<(), SdkError>)> = Vec::new();
        let mut i: usize = 0;
        let n = self.adapters.len();
        while i < n
            invariant
                n == self.adapters@.len(),
                n == old(self).adapters@.len(),
                i <= n,
                r@.len() == i,
                exchanges_of(self.adapters@) == exchanges_of(old(self).adapters@),
                forall|k: int| 0 <= k < n ==> (#[trigger] self.adapters@[k]).wf(),
                forall|k: int|
                    0 <= k < i ==> (#[trigger] r@[k]).0 == adapter_exchange(old(self).adapters@[k]) && r@[k].1 is Ok,
                exchanges_of(old(self).adapters@).no_duplicates(),
            decreases n - i,
        {
            let mut a = self.adapters.remove(i);
            let ghost before = exchanges_of(old(self).adapters@);
            assert(adapter_exchange(a) == before[i as int]);
            let e = a.exchange();
            let result = a.disconnect();
            self.adapters.insert(i, a);
            proof {
                assert(exchanges_of(self.adapters@) =~= before);
            }
            r.push((e, result));
            i = i + 1;
        }
        r
    }
}

impl Default for ExchangeManager {
    fn default() -> (m: Self)
        ensures
            m.wf(),
            m.adapters_view().len() == 0,
    {
        ExchangeManager::new()
    }
}

/// Subscribing a symbol twice is the same as subscribing it once.
pub proof fn law_subscribe_idempotent(v: Seq<Seq<char>>, s: Seq<char>)
    ensures
        with_symbol(with_symbol(v, s), s) == with_symbol(v, s),
{
    if !v.contains(s) {
        assert(v.push(s)[v.len() as int] == s);
    }
}

/// After unsubscribing a symbol it is no longer subscribed, whatever came
/// before.
pub proof fn law_unsubscribed_symbol_gone(v: Seq<Seq<char>>, s: Seq<char>)
    ensures
        !without(v, s).contains(s),
{
    reveal(Seq::filter);
    if without(v, s).contains(s) {
        v.filter_lemma(crate::exchange::other_than(s));
        let i = choose|i: int| 0 <= i < without(v, s).len() && without(v, s)[i] == s;
        assert(crate::exchange::other_than(s)(without(v, s)[i]));
    }
}

/// A manager holds at most one adapter per exchange.
pub proof fn law_one_adapter_per_exchange(m: ExchangeManager)
    requires
        m.wf(),
    ensures
        exchanges_of(m.adapters_view()).no_duplicates(),
{
}

} // verus!
