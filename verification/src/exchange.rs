//! Exchange identifiers, capabilities and symbol mapping between the normalized
//! "BASE/QUOTE" form and each exchange's own form.

use crate::error::SdkError;
use crate::text::{ends_with, ends_with_exec, replace_all, replaced, trim_end_all, trimmed_end};
use vstd::prelude::*;

pub mod adapters;

verus! {

broadcast use vstd::string::group_string_axioms;

/// Exchange identifier.
#[derive(Debug, Clone, Copy, PartialEq, Eq, Hash, Structural)]
pub enum Exchange {
    Kraken,
    Binance,
    Coinbase,
    FTX,
    Bybit,
}

impl Exchange {
    /// The exchange's display name.
    pub fn name(&self) -> (s: &'static str)
        ensures
            s@ == exchange_name(*self),
    {
        proof {
            reveal_strlit("Kraken");
            reveal_strlit("Binance");
            reveal_strlit("Coinbase");
            reveal_strlit("FTX");
            reveal_strlit("Bybit");
        }
        match self {
            Exchange::Kraken => "Kraken",
            Exchange::Binance => "Binance",
            Exchange::Coinbase => "Coinbase",
            Exchange::FTX => "FTX",
            Exchange::Bybit => "Bybit",
        }
    }
}

/// The display name of an exchange.
pub open spec fn exchange_name(e: Exchange) -> Seq<char> {
    match e {
        Exchange::Kraken => "Kraken"@,
        Exchange::Binance => "Binance"@,
        Exchange::Coinbase => "Coinbase"@,
        Exchange::FTX => "FTX"@,
        Exchange::Bybit => "Bybit"@,
    }
}

/// Exchange capabilities.
#[derive(Debug, Clone, Copy, Default)]
pub struct ExchangeCapabilities {
    pub supports_ticker: bool,
    pub supports_trades: bool,
    pub supports_orderbook: bool,
    pub supports_ohlc: bool,
    pub max_orderbook_depth: u32,
    pub rate_limit_per_second: u32,
}

/// Exchange status.
#[derive(Debug, Clone, Copy, PartialEq, Eq, Structural)]
pub enum ExchangeStatus {
    Connected,
    Connecting,
    Disconnected,
    Reconnecting,
    Error,
    NotImplemented,
}

/// Configuration for an exchange adapter.
#[derive(Debug, Clone)]
pub struct ExchangeConfig {
    pub exchange: Exchange,
    pub ws_endpoint: String,
    pub rest_endpoint: Option<String>,
    pub api_key: Option<String>,
    pub api_secret: Option<String>,
    pub auto_reconnect: bool,
    pub max_reconnect_attempts: u32,
    pub reconnect_delay_ms: u64,
}

impl Default for ExchangeConfig {
    fn default() -> (c: Self)
        ensures
            c.exchange == Exchange::Kraken,
            c.ws_endpoint@ == "wss://ws.kraken.com"@,
            c.rest_endpoint is None,
            c.api_key is None,
            c.api_secret is None,
            c.auto_reconnect,
            c.max_reconnect_attempts == 10,
            c.reconnect_delay_ms == 1000,
    {
        ExchangeConfig {
            exchange: Exchange::Kraken,
            ws_endpoint: "wss://ws.kraken.com".to_string(),
            rest_endpoint: None,
            api_key: None,
            api_secret: None,
            auto_reconnect: true,
            max_reconnect_attempts: 10,
            reconnect_delay_ms: 1000,
        }
    }
}

/// Symbol mapping between the normalized form (e.g. "BTC/USD") and an exchange's own.
pub trait SymbolMapper {
    fn to_native(&self, symbol: &String) -> String;

    fn from_native(&self, native: &String) -> String;
}

/// Kraken names bitcoin XBT.
pub open spec fn kraken_native(symbol: Seq<char>) -> Seq<char> {
    replaced(symbol, "BTC"@, "XBT"@)
}

/// Kraken's XBT back to BTC.
pub open spec fn kraken_normalized(native: Seq<char>) -> Seq<char> {
    replaced(native, "XBT"@, "BTC"@)
}

/// Binance drops the slash and quotes in USDT.
pub open spec fn binance_native(symbol: Seq<char>) -> Seq<char> {
    replaced(replaced(symbol, "/"@, ""@), "USD"@, "USDT"@)
}

/// Binance's "BASEUSDT" back to "BASE/USD"; other symbols are kept.
pub open spec fn binance_normalized(native: Seq<char>) -> Seq<char> {
    if ends_with(native, "USDT"@) {
        trimmed_end(native, "USDT"@) + "/USD"@
    } else {
        native
    }
}

/// What `str::to_uppercase` gives for a text.
pub uninterp spec fn upper_text(s: Seq<char>) -> Seq<char>;

/// `str::to_uppercase`: the text with every character in upper case (the
/// Unicode mapping); a function of the text alone.
#[verifier::external_body]
fn to_upper(s: &str) -> (r: String)
    ensures
        r@ == upper_text(s@),
{
    s.to_uppercase()
}

/// A symbol in the standard form: XBT named BTC, dashes as slashes, upper case.
pub open spec fn normalized_symbol(symbol: Seq<char>) -> Seq<char> {
    upper_text(replaced(replaced(symbol, "XBT"@, "BTC"@), "-"@, "/"@))
}

/// Normalizes a symbol: `XBT` becomes `BTC`, `-` becomes `/`, then the text
/// is put in upper case.
pub fn normalize_symbol(symbol: &str) -> (r: String)
    ensures
        r@ == normalized_symbol(symbol@),
{
    proof {
        reveal_strlit("XBT");
        reveal_strlit("-");
    }
    let a = replace_all(symbol, "XBT", "BTC");
    let b = replace_all(a.as_str(), "-", "/");
    to_upper(b.as_str())
}

/// Kraken symbol mapper.
pub struct KrakenSymbolMapper;

impl SymbolMapper for KrakenSymbolMapper {
    fn to_native(&self, symbol: &String) -> (r: String)
        ensures
            r@ == kraken_native(symbol@),
    {
        proof {
            reveal_strlit("BTC");
        }
        replace_all(symbol.as_str(), "BTC", "XBT")
    }

    fn from_native(&self, native: &String) -> (r: String)
        ensures
            r@ == kraken_normalized(native@),
    {
        proof {
            reveal_strlit("XBT");
        }
        replace_all(native.as_str(), "XBT", "BTC")
    }
}

/// Binance symbol mapper.
pub struct BinanceSymbolMapper;

impl SymbolMapper for BinanceSymbolMapper {
    fn to_native(&self, symbol: &String) -> (r: String)
        ensures
            r@ == binance_native(symbol@),
    {
        proof {
            reveal_strlit("/");
            reveal_strlit("USD");
        }
        let no_slash = replace_all(symbol.as_str(), "/", "");
        replace_all(no_slash.as_str(), "USD", "USDT")
    }

    fn from_native(&self, native: &String) -> (r: String)
        ensures
            r@ == binance_normalized(native@),
    {
        proof {
            reveal_strlit("USDT");
        }
        if ends_with_exec(native.as_str(), "USDT") {
            let base = trim_end_all(native.as_str(), "USDT");
            let mut out = base.to_string();
            out.append("/USD");
            out
        } else {
            native.clone()
        }
    }
}

/// The capabilities of the Kraken adapter.
pub open spec fn kraken_caps() -> ExchangeCapabilities {
    ExchangeCapabilities {
        supports_ticker: true,
        supports_trades: true,
        supports_orderbook: true,
        supports_ohlc: true,
        max_orderbook_depth: 1000,
        rate_limit_per_second: 60,
    }
}

/// Capabilities of the Kraken adapter.
pub fn kraken_capabilities() -> (c: ExchangeCapabilities)
    ensures
        c == kraken_caps(),
{
    ExchangeCapabilities {
        supports_ticker: true,
        supports_trades: true,
        supports_orderbook: true,
        supports_ohlc: true,
        max_orderbook_depth: 1000,
        rate_limit_per_second: 60,
    }
}

/// The capabilities of the Binance adapter.
pub open spec fn binance_caps() -> ExchangeCapabilities {
    ExchangeCapabilities {
        supports_ticker: true,
        supports_trades: true,
        supports_orderbook: true,
        supports_ohlc: true,
        max_orderbook_depth: 5000,
        rate_limit_per_second: 1200,
    }
}

/// Capabilities of the Binance adapter.
pub fn binance_capabilities() -> (c: ExchangeCapabilities)
    ensures
        c == binance_caps(),
{
    ExchangeCapabilities {
        supports_ticker: true,
        supports_trades: true,
        supports_orderbook: true,
        supports_ohlc: true,
        max_orderbook_depth: 5000,
        rate_limit_per_second: 1200,
    }
}

/// The capabilities of the Coinbase adapter.
pub open spec fn coinbase_caps() -> ExchangeCapabilities {
    ExchangeCapabilities {
        supports_ticker: true,
        supports_trades: true,
        supports_orderbook: true,
        supports_ohlc: false,
        max_orderbook_depth: 50,
        rate_limit_per_second: 100,
    }
}

/// Capabilities of the Coinbase adapter.
pub fn coinbase_capabilities() -> (c: ExchangeCapabilities)
    ensures
        c == coinbase_caps(),
{
    ExchangeCapabilities {
        supports_ticker: true,
        supports_trades: true,
        supports_orderbook: true,
        supports_ohlc: false,
        max_orderbook_depth: 50,
        rate_limit_per_second: 100,
    }
}

/// The symbols an adapter is subscribed to, each once, in subscription order.
pub struct SubscribedSymbols {
    symbols: Vec<String>,
}

/// The symbols in `v` other than `s`, in order.
pub open spec fn without(v: Seq<Seq<char>>, s: Seq<char>) -> Seq<Seq<char>> {
    v.filter(other_than(s))
}

/// The test for symbols other than `s`.
pub open spec fn other_than(s: Seq<char>) -> spec_fn(Seq<char>) -> bool {
    |x: Seq<char>| x != s
}

impl SubscribedSymbols {
    /// The subscribed symbols, in subscription order.
    pub closed spec fn view_symbols(&self) -> Seq<Seq<char>> {
        self.symbols@.map_values(|s: String| s@)
    }

    /// No symbol twice.
    pub closed spec fn wf(&self) -> bool {
        self.view_symbols().no_duplicates()
    }

    /// No subscription yet.
    pub fn new() -> (r: Self)
        ensures
            r.wf(),
            r.view_symbols().len() == 0,
    {
        let r = SubscribedSymbols { symbols: Vec::new() };
        assert(r.view_symbols() =~= Seq::<Seq<char>>::empty());
        r
    }

    /// Whether `symbol` is subscribed.
    pub fn contains(&self, symbol: &String) -> (b: bool)
        ensures
            b == self.view_symbols().contains(symbol@),
    {
        let mut i: usize = 0;
        while i < self.symbols.len()
            invariant
                i <= self.symbols@.len(),
                forall|j: int| 0 <= j < i ==> self.symbols@[j]@ != symbol@,
            decreases self.symbols@.len() - i,
        {
            if self.symbols[i] == *symbol {
                assert(self.view_symbols()[i as int] == symbol@);
                return true;
            }
            i = i + 1;
        }
        assert forall|j: int| 0 <= j < self.view_symbols().len() implies self.view_symbols()[j] != symbol@ by {
            assert(self.view_symbols()[j] == self.symbols@[j]@);
        }
        false
    }

    /// Subscribe `symbol`, unless it already is.
    pub fn add(&mut self, symbol: &String)
        requires
            old(self).wf(),
        ensures
            final(self).wf(),
            final(self).view_symbols() == if old(self).view_symbols().contains(symbol@) {
                old(self).view_symbols()
            } else {
                old(self).view_symbols().push(symbol@)
            },
    {
        if !self.contains(symbol) {
            self.symbols.push(symbol.clone());
            assert(self.view_symbols() =~= old(self).view_symbols().push(symbol@));
        }
    }

    /// Drop `symbol` from the subscriptions.
    pub fn remove(&mut self, symbol: &String)
        requires
            old(self).wf(),
        ensures
            final(self).wf(),
            final(self).view_symbols() == without(old(self).view_symbols(), symbol@),
    {
        let ghost old_v = old(self).view_symbols();
        let mut kept: Vec<String> = Vec::new();
        let mut i: usize = 0;
        while i < self.symbols.len()
            invariant
                i <= self.symbols@.len(),
                self.symbols@.map_values(|s: String| s@) == old_v,
                old_v.no_duplicates(),
                kept@.map_values(|s: String| s@) == without(old_v.subrange(0, i as int), symbol@),
            decreases self.symbols@.len() - i,
        {
            assert(old_v.subrange(0, i + 1) =~= old_v.subrange(0, i as int).push(old_v[i as int]));
            proof {
                old_v.subrange(0, i as int).lemma_filter_push(old_v[i as int], other_than(symbol@));
            }
            assert(self.symbols@[i as int]@ == old_v[i as int]);
            if self.symbols[i] != *symbol {
                kept.push(self.symbols[i].clone());
                assert(kept@.map_values(|s: String| s@) =~= without(old_v.subrange(0, i + 1), symbol@));
            } else {
                assert(kept@.map_values(|s: String| s@) =~= without(old_v.subrange(0, i + 1), symbol@));
            }
            i = i + 1;
        }
        assert(old_v.subrange(0, old_v.len() as int) =~= old_v);
        self.symbols = kept;
        proof {
            lemma_without_no_duplicates(old_v, symbol@);
        }
    }

    /// Drop every subscription.
    pub fn clear(&mut self)
        ensures
            final(self).wf(),
            final(self).view_symbols().len() == 0,
    {
        self.symbols.clear();
        assert(self.view_symbols() =~= Seq::<Seq<char>>::empty());
    }

    /// The subscribed symbols, in subscription order.
    pub fn to_vec(&self) -> (r: Vec<String>)
        ensures
            r@.map_values(|s: String| s@) == self.view_symbols(),
    {
        self.symbols.clone()
    }
}

/// Filtering keeps a sequence free of duplicates.
pub proof fn lemma_without_no_duplicates(v: Seq<Seq<char>>, s: Seq<char>)
    requires
        v.no_duplicates(),
    ensures
        without(v, s).no_duplicates(),
    decreases v.len(),
{
    reveal(Seq::filter);
    if v.len() > 0 {
        let init = v.drop_last();
        assert(init.no_duplicates());
        lemma_without_no_duplicates(init, s);
        init.lemma_filter_push(v.last(), other_than(s));
        assert(v =~= init.push(v.last()));
        if without(init, s).contains(v.last()) {
            init.lemma_filter_contains_rev(other_than(s), v.last());
            let j = choose|j: int| 0 <= j < init.len() && init[j] == v.last();
            assert(v[j] == v[v.len() - 1]);
        }
    }
}

/// Coinbase exchange adapter (stub: it connects nowhere).
pub struct CoinbaseAdapter {
    status: ExchangeStatus,
    subscribed: SubscribedSymbols,
}

impl CoinbaseAdapter {
    /// A stub adapter: not implemented, nothing subscribed.
    pub fn new() -> (a: Self)
        ensures
            a.wf(),
            a.current_status() == ExchangeStatus::NotImplemented,
            a.symbols().len() == 0,
    {
        CoinbaseAdapter { status: ExchangeStatus::NotImplemented, subscribed: SubscribedSymbols::new() }
    }

    /// The subscriptions hold no symbol twice, and the stub stays not implemented.
    pub closed spec fn wf(&self) -> bool {
        self.subscribed.wf() && self.status == ExchangeStatus::NotImplemented
    }

    /// Current status.
    pub closed spec fn current_status(&self) -> ExchangeStatus {
        self.status
    }

    /// Subscribed symbols.
    pub closed spec fn symbols(&self) -> Seq<Seq<char>> {
        self.subscribed.view_symbols()
    }

    /// The exchange served.
    pub fn exchange(&self) -> (e: Exchange)
        ensures
            e == Exchange::Coinbase,
    {
        Exchange::Coinbase
    }

    /// The adapter's capabilities.
    pub fn capabilities(&self) -> (c: ExchangeCapabilities)
        ensures
            c == coinbase_caps(),
    {
        coinbase_capabilities()
    }

    /// Current status.
    pub fn status(&self) -> (s: ExchangeStatus)
        ensures
            s == self.current_status(),
    {
        self.status
    }

    /// Connecting is not implemented: the status is kept and the error says so.
    pub fn connect(&mut self) -> (r: Result<(), SdkError>)
        ensures
            r matches Err(SdkError::NotImplemented(m)) && m@ == "Coinbase adapter"@,
            *final(self) == *old(self),
    {
        Err(SdkError::NotImplemented("Coinbase adapter".to_string()))
    }

    /// Disconnecting has nothing to do.
    pub fn disconnect(&mut self) -> (r: Result<(), SdkError>)
        ensures
            r is Ok,
            *final(self) == *old(self),
    {
        Ok(())
    }

    /// Ticker subscriptions are not implemented.
    pub fn subscribe_ticker(&mut self, _symbol: &String) -> (r: Result<(), SdkError>)
        ensures
            r matches Err(SdkError::NotImplemented(m)) && m@ == "Coinbase"@,
            *final(self) == *old(self),
    {
        Err(SdkError::NotImplemented("Coinbase".to_string()))
    }

    /// Trade subscriptions are not implemented.
    pub fn subscribe_trades(&mut self, _symbol: &String) -> (r: Result<(), SdkError>)
        ensures
            r matches Err(SdkError::NotImplemented(m)) && m@ == "Coinbase"@,
            *final(self) == *old(self),
    {
        Err(SdkError::NotImplemented("Coinbase".to_string()))
    }

    /// Order book subscriptions are not implemented.
    pub fn subscribe_orderbook(&mut self, _symbol: &String, _depth: u32) -> (r: Result<(), SdkError>)
        ensures
            r matches Err(SdkError::NotImplemented(m)) && m@ == "Coinbase"@,
            *final(self) == *old(self),
    {
        Err(SdkError::NotImplemented("Coinbase".to_string()))
    }

    /// Drop `symbol` from the subscriptions.
    pub fn unsubscribe(&mut self, symbol: &String) -> (r: Result<(), SdkError>)
        requires
            old(self).wf(),
        ensures
            r is Ok,
            final(self).wf(),
            final(self).symbols() == without(old(self).symbols(), symbol@),
            final(self).current_status() == old(self).current_status(),
    {
        self.subscribed.remove(symbol);
        Ok(())
    }

    /// The subscribed symbols.
    pub fn subscribed_symbols(&self) -> (r: Vec<String>)
        ensures
            r@.map_values(|s: String| s@) == self.symbols(),
    {
        self.subscribed.to_vec()
    }
}

impl Default for CoinbaseAdapter {
    fn default() -> (a: Self)
        ensures
            a.wf(),
            a.current_status() == ExchangeStatus::NotImplemented,
            a.symbols().len() == 0,
    {
        CoinbaseAdapter::new()
    }
}

} // verus!
