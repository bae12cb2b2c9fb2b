//! Data models for market data structures.
//!
//! Timestamps are microseconds since the Unix epoch (UTC).

use crate::clock::{as_nanos, duration_from_secs, duration_nanos, utc_display, utc_text};
use crate::decimal::{dec_text, to_text};
use crate::text::{decimal, occurs_at, occurs_at_exec, u64_to_decimal};
use rust_decimal::Decimal;
use std::time::Duration;
use vstd::prelude::*;

verus! {

broadcast use vstd::string::group_string_axioms;

/// Ticker data structure.
#[derive(Debug, Clone)]
pub struct TickerData {
    pub symbol: String,
    pub bid: Decimal,
    pub ask: Decimal,
    pub last_price: Decimal,
    pub volume: Decimal,
    pub timestamp: i64,
}

/// Order book update structure.
#[derive(Debug, Clone)]
pub struct OrderBookUpdate {
    pub symbol: String,
    pub bids: Vec<PriceLevel>,
    pub asks: Vec<PriceLevel>,
    pub timestamp: i64,
    pub checksum: Option<u32>,
}

/// Trade data structure.
#[derive(Debug, Clone)]
pub struct TradeData {
    pub symbol: String,
    pub price: Decimal,
    pub volume: Decimal,
    pub side: TradeSide,
    pub timestamp: i64,
    pub trade_id: String,
}

/// Price level in order book.
#[derive(Debug, Clone, Copy)]
pub struct PriceLevel {
    pub price: Decimal,
    pub volume: Decimal,
    pub timestamp: i64,
}

/// OHLC (Open, High, Low, Close) data structure.
#[derive(Debug, Clone)]
pub struct OHLCData {
    pub symbol: String,
    pub open: Decimal,
    pub high: Decimal,
    pub low: Decimal,
    pub close: Decimal,
    pub volume: Decimal,
    pub timestamp: i64,
    pub interval: String,
}

/// Trade side enumeration.
#[derive(Debug, Clone, Copy, PartialEq, Eq, Structural)]
pub enum TradeSide {
    Buy,
    Sell,
}

/// Data type enumeration for event dispatching.
#[derive(Debug, Clone, Copy, PartialEq, Eq, Structural, Hash)]
pub enum DataType {
    Ticker,
    OrderBook,
    Trade,
    OHLC,
}

/// Connection configuration.
#[derive(Debug, Clone)]
pub struct ConnectionConfig {
    pub endpoint: String,
    pub timeout: Duration,
    pub ping_interval: Duration,
}

impl Default for ConnectionConfig {
    fn default() -> (c: Self)
        ensures
            c.endpoint@ == "wss://ws.kraken.com"@,
            duration_nanos(c.timeout) == 30_000_000_000,
            duration_nanos(c.ping_interval) == 30_000_000_000,
    {
        ConnectionConfig {
            endpoint: "wss://ws.kraken.com".to_string(),
            timeout: duration_from_secs(30),
            ping_interval: duration_from_secs(30),
        }
    }
}

/// Connection state enumeration.
#[derive(Debug, Clone, Copy, PartialEq, Eq, Structural)]
pub enum ConnectionState {
    Disconnected,
    Connecting,
    Connected,
    Reconnecting,
    Failed,
}

/// Channel specification for subscriptions.
#[derive(Debug, Clone)]
pub struct Channel {
    pub name: String,
    pub symbol: Option<String>,
    pub interval: Option<String>,
}

impl Channel {
    /// A channel with no symbol and no interval.
    pub fn new(name: &str) -> (c: Self)
        ensures
            c.name@ == name@,
            c.symbol is None,
            c.interval is None,
    {
        Channel { name: name.to_string(), symbol: None, interval: None }
    }

    /// The channel for the given symbol.
    pub fn with_symbol(self, symbol: &str) -> (c: Self)
        ensures
            c.name == self.name,
            c.symbol matches Some(s) && s@ == symbol@,
            c.interval == self.interval,
    {
        let mut this = self;
        this.symbol = Some(symbol.to_string());
        this
    }

    /// The channel with the given interval.
    pub fn with_interval(self, interval: &str) -> (c: Self)
        ensures
            c.name == self.name,
            c.symbol == self.symbol,
            c.interval matches Some(i) && i@ == interval@,
    {
        let mut this = self;
        this.interval = Some(interval.to_string());
        this
    }
}

/// The name of a trade side.
pub open spec fn side_text(s: TradeSide) -> Seq<char> {
    match s {
        TradeSide::Buy => "Buy"@,
        TradeSide::Sell => "Sell"@,
    }
}

/// The text of a ticker.
pub open spec fn ticker_text(t: TickerData) -> Seq<char> {
    "Ticker["@ + t.symbol@ + "]: bid="@ + dec_text(t.bid) + ", ask="@ + dec_text(t.ask) + ", last="@ + dec_text(
        t.last_price,
    ) + ", vol="@ + dec_text(t.volume) + " @ "@ + utc_text(t.timestamp)
}

/// The text of an order book update.
pub open spec fn book_update_text(u: OrderBookUpdate) -> Seq<char> {
    "OrderBook["@ + u.symbol@ + "]: "@ + decimal(u.bids@.len()) + " bids, "@ + decimal(u.asks@.len()) + " asks @ "@
        + utc_text(u.timestamp)
}

/// The text of a trade.
pub open spec fn trade_text(t: TradeData) -> Seq<char> {
    "Trade["@ + t.symbol@ + "]: "@ + side_text(t.side) + " "@ + dec_text(t.volume) + " @ "@ + dec_text(t.price)
        + " (ID: "@ + t.trade_id@ + ") @ "@ + utc_text(t.timestamp)
}

/// The text of a price level: volume at price.
pub open spec fn level_text(l: PriceLevel) -> Seq<char> {
    dec_text(l.volume) + "@"@ + dec_text(l.price)
}

/// The text of a candle.
pub open spec fn ohlc_text(c: OHLCData) -> Seq<char> {
    "OHLC["@ + c.symbol@ + ":"@ + c.interval@ + "]: O="@ + dec_text(c.open) + " H="@ + dec_text(c.high) + " L="@
        + dec_text(c.low) + " C="@ + dec_text(c.close) + " V="@ + dec_text(c.volume) + " @ "@ + utc_text(c.timestamp)
}

impl TickerData {
    /// `Ticker[symbol]: bid=…, ask=…, last=…, vol=… @ time`.
    pub fn text(&self) -> (s: String)
        ensures
            s@ == ticker_text(*self),
    {
        let mut s = "Ticker[".to_string();
        s.append(self.symbol.as_str());
        s.append("]: bid=");
        s.append(to_text(&self.bid).as_str());
        s.append(", ask=");
        s.append(to_text(&self.ask).as_str());
        s.append(", last=");
        s.append(to_text(&self.last_price).as_str());
        s.append(", vol=");
        s.append(to_text(&self.volume).as_str());
        s.append(" @ ");
        s.append(utc_display(self.timestamp).as_str());
        s
    }
}

impl OrderBookUpdate {
    /// `OrderBook[symbol]: n bids, m asks @ time`.
    pub fn text(&self) -> (s: String)
        ensures
            s@ == book_update_text(*self),
    {
        let mut s = "OrderBook[".to_string();
        s.append(self.symbol.as_str());
        s.append("]: ");
        s.append(u64_to_decimal(self.bids.len() as u64).as_str());
        s.append(" bids, ");
        s.append(u64_to_decimal(self.asks.len() as u64).as_str());
        s.append(" asks @ ");
        s.append(utc_display(self.timestamp).as_str());
        s
    }
}

impl TradeData {
    /// `Trade[symbol]: side volume @ price (ID: id) @ time`.
    pub fn text(&self) -> (s: String)
        ensures
            s@ == trade_text(*self),
    {
        let mut s = "Trade[".to_string();
        s.append(self.symbol.as_str());
        s.append("]: ");
        match self.side {
            TradeSide::Buy => s.append("Buy"),
            TradeSide::Sell => s.append("Sell"),
        }
        s.append(" ");
        s.append(to_text(&self.volume).as_str());
        s.append(" @ ");
        s.append(to_text(&self.price).as_str());
        s.append(" (ID: ");
        s.append(self.trade_id.as_str());
        s.append(") @ ");
        s.append(utc_display(self.timestamp).as_str());
        s
    }
}

impl PriceLevel {
    /// `volume@price`.
    pub fn text(&self) -> (s: String)
        ensures
            s@ == level_text(*self),
    {
        let mut s = to_text(&self.volume);
        s.append("@");
        s.append(to_text(&self.price).as_str());
        s
    }
}

impl OHLCData {
    /// `OHLC[symbol:interval]: O=… H=… L=… C=… V=… @ time`.
    pub fn text(&self) -> (s: String)
        ensures
            s@ == ohlc_text(*self),
    {
        let mut s = "OHLC[".to_string();
        s.append(self.symbol.as_str());
        s.append(":");
        s.append(self.interval.as_str());
        s.append("]: O=");
        s.append(to_text(&self.open).as_str());
        s.append(" H=");
        s.append(to_text(&self.high).as_str());
        s.append(" L=");
        s.append(to_text(&self.low).as_str());
        s.append(" C=");
        s.append(to_text(&self.close).as_str());
        s.append(" V=");
        s.append(to_text(&self.volume).as_str());
        s.append(" @ ");
        s.append(utc_display(self.timestamp).as_str());
        s
    }
}

/// The first problem with client settings, if any: an empty endpoint, an
/// endpoint that is not a `ws://` or `wss://` URL, an empty buffer, or a
/// timeout of less than a second.
pub open spec fn client_settings_problem(endpoint: Seq<char>, buffer_size: usize, timeout: Duration) -> Option<Seq<char>> {
    if endpoint.len() == 0 {
        Some("Endpoint cannot be empty"@)
    } else if !occurs_at(endpoint, 0, "ws://"@) && !occurs_at(endpoint, 0, "wss://"@) {
        Some("Endpoint must be a valid WebSocket URL"@)
    } else if buffer_size == 0 {
        Some("Buffer size must be greater than 0"@)
    } else if duration_nanos(timeout) < 1_000_000_000 {
        Some("Timeout must be greater than 0"@)
    } else {
        None
    }
}

/// Checks the endpoint, buffer size and timeout of a client configuration
/// (the timeout counted in whole seconds), reporting the first problem.
pub fn check_client_settings(endpoint: &str, buffer_size: usize, timeout: &Duration) -> (r: Result<(), String>)
    ensures
        match client_settings_problem(endpoint@, buffer_size, *timeout) {
            Some(m) => r matches Err(e) && e@ == m,
            None => r is Ok,
        },
{
    if endpoint.unicode_len() == 0 {
        return Err("Endpoint cannot be empty".to_string());
    }
    if !occurs_at_exec(endpoint, 0, "ws://") && !occurs_at_exec(endpoint, 0, "wss://") {
        return Err("Endpoint must be a valid WebSocket URL".to_string());
    }
    if buffer_size == 0 {
        return Err("Buffer size must be greater than 0".to_string());
    }
    if as_nanos(timeout) < 1_000_000_000 {
        return Err("Timeout must be greater than 0".to_string());
    }
    Ok(())
}

} // verus!
