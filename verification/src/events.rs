//! Events: the unified event type, and the registry of callbacks by data
//! type with the ids they are managed by.
//!
//! Callbacks are opaque values of the caller's type `C`; the registry
//! decides which of them an event goes to.

use crate::data::{ConnectionState, DataType, OHLCData, OrderBookUpdate, TickerData, TradeData};
use crate::error::SdkError;
use crate::text::decimal;
use crate::text::u64_to_decimal;
use vstd::prelude::*;

verus! {

broadcast use vstd::string::group_string_axioms;

/// One type for every SDK event.
#[derive(Debug, Clone)]
pub enum SdkEvent {
    Ticker(TickerData),
    Trade(TradeData),
    OrderBook(OrderBookUpdate),
    Ohlc(OHLCData),
    State(ConnectionState),
    Error(SdkError),
}

impl SdkEvent {
    /// The symbol of a market data event.
    pub fn symbol(&self) -> (s: Option<&str>)
        ensures
            match *self {
                SdkEvent::Ticker(d) => s matches Some(t) && t@ == d.symbol@,
                SdkEvent::Trade(d) => s matches Some(t) && t@ == d.symbol@,
                SdkEvent::OrderBook(d) => s matches Some(t) && t@ == d.symbol@,
                SdkEvent::Ohlc(d) => s matches Some(t) && t@ == d.symbol@,
                _ => s is None,
            },
    {
        match self {
            SdkEvent::Ticker(d) => Some(d.symbol.as_str()),
            SdkEvent::Trade(d) => Some(d.symbol.as_str()),
            SdkEvent::OrderBook(d) => Some(d.symbol.as_str()),
            SdkEvent::Ohlc(d) => Some(d.symbol.as_str()),
            SdkEvent::State(_) | SdkEvent::Error(_) => None,
        }
    }

    /// Whether the event carries market data.
    pub fn is_market_data(&self) -> (b: bool)
        ensures
            b == (self is Ticker || self is Trade || self is OrderBook || self is Ohlc),
    {
        match self {
            SdkEvent::Ticker(_) | SdkEvent::Trade(_) | SdkEvent::OrderBook(_) | SdkEvent::Ohlc(_) => true,
            _ => false,
        }
    }

    /// Whether the event is an error.
    pub fn is_error(&self) -> (b: bool)
        ensures
            b == self is Error,
    {
        match self {
            SdkEvent::Error(_) => true,
            _ => false,
        }
    }
}

/// The ids of entries.
pub open spec fn ids_of<C>(entries: Seq<(u64, C)>) -> Seq<u64> {
    entries.map_values(|e: (u64, C)| e.0)
}

/// Entries without those of an id.
pub open spec fn without_id<C>(entries: Seq<(u64, C)>, id: u64) -> Seq<(u64, C)>
    decreases entries.len(),
{
    if entries.len() == 0 {
        entries
    } else if entries.last().0 == id {
        without_id(entries.drop_last(), id)
    } else {
        without_id(entries.drop_last(), id).push(entries.last())
    }
}

/// Callbacks by data type, connection listeners and error callbacks, each
/// with the id it was registered under.
pub struct CallbackRegistry<C> {
    ticker_callbacks: Vec<(u64, C)>,
    orderbook_callbacks: Vec<(u64, C)>,
    trade_callbacks: Vec<(u64, C)>,
    ohlc_callbacks: Vec<(u64, C)>,
    connection_listeners: Vec<(u64, C)>,
    error_callbacks: Vec<(u64, C)>,
    next_id: u64,
}

impl<C> CallbackRegistry<C> {
    /// The callbacks of a data type, in order registered.
    pub closed spec fn callbacks(&self, t: DataType) -> Seq<(u64, C)> {
        match t {
            DataType::Ticker => self.ticker_callbacks@,
            DataType::OrderBook => self.orderbook_callbacks@,
            DataType::Trade => self.trade_callbacks@,
            DataType::OHLC => self.ohlc_callbacks@,
        }
    }

    /// The connection listeners, in order registered.
    pub closed spec fn listeners(&self) -> Seq<(u64, C)> {
        self.connection_listeners@
    }

    /// The error callbacks, in order registered.
    pub closed spec fn error_handlers(&self) -> Seq<(u64, C)> {
        self.error_callbacks@
    }

    /// The last id given out (0 before any).
    pub closed spec fn last_id(&self) -> u64 {
        self.next_id
    }

    /// The registry is always consistent.
    pub closed spec fn wf(&self) -> bool {
        true
    }

    /// No callbacks.
    pub fn new() -> (r: Self)
        ensures
            r.wf(),
            r.last_id() == 0,
            forall|t: DataType| #[trigger] r.callbacks(t).len() == 0,
            r.listeners().len() == 0,
            r.error_handlers().len() == 0,
    {
        CallbackRegistry {
            ticker_callbacks: Vec::new(),
            orderbook_callbacks: Vec::new(),
            trade_callbacks: Vec::new(),
            ohlc_callbacks: Vec::new(),
            connection_listeners: Vec::new(),
            error_callbacks: Vec::new(),
            next_id: 0,
        }
    }

    /// The last id given out (0 before any registration).
    pub fn last_callback_id(&self) -> (id: u64)
        ensures
            id == self.last_id(),
    {
        self.next_id
    }

    /// The next id: one past the last.
    fn next_callback_id(&mut self) -> (id: u64)
        requires
            old(self).last_id() < u64::MAX,
        ensures
            id == old(self).last_id() + 1,
            final(self).last_id() == id,
            final(self).ticker_callbacks == old(self).ticker_callbacks,
            final(self).orderbook_callbacks == old(self).orderbook_callbacks,
            final(self).trade_callbacks == old(self).trade_callbacks,
            final(self).ohlc_callbacks == old(self).ohlc_callbacks,
            final(self).connection_listeners == old(self).connection_listeners,
            final(self).error_callbacks == old(self).error_callbacks,
    {
        self.next_id = self.next_id + 1;
        self.next_id
    }

    /// Registers a callback for a data type under a new id.
    pub fn register_callback(&mut self, data_type: DataType, callback: C) -> (id: u64)
        requires
            old(self).wf(),
            old(self).last_id() < u64::MAX,
        ensures
            final(self).wf(),
            id == old(self).last_id() + 1,
            final(self).last_id() == id,
            final(self).callbacks(data_type) == old(self).callbacks(data_type).push((id, callback)),
            forall|t: DataType| t != data_type ==> #[trigger] final(self).callbacks(t) == old(self).callbacks(t),
            final(self).listeners() == old(self).listeners(),
            final(self).error_handlers() == old(self).error_handlers(),
    {
        let id = self.next_callback_id();
        match data_type {
            DataType::Ticker => self.ticker_callbacks.push((id, callback)),
            DataType::OrderBook => self.orderbook_callbacks.push((id, callback)),
            DataType::Trade => self.trade_callbacks.push((id, callback)),
            DataType::OHLC => self.ohlc_callbacks.push((id, callback)),
        }
        id
    }

    /// Registers a connection listener under a new id.
    pub fn register_connection_listener(&mut self, callback: C) -> (id: u64)
        requires
            old(self).wf(),
            old(self).last_id() < u64::MAX,
        ensures
            final(self).wf(),
            id == old(self).last_id() + 1,
            final(self).last_id() == id,
            final(self).listeners() == old(self).listeners().push((id, callback)),
            forall|t: DataType| #[trigger] final(self).callbacks(t) == old(self).callbacks(t),
            final(self).error_handlers() == old(self).error_handlers(),
    {
        let id = self.next_callback_id();
        self.connection_listeners.push((id, callback));
        id
    }

    /// Registers an error callback under a new id.
    pub fn register_error_callback(&mut self, callback: C) -> (id: u64)
        requires
            old(self).wf(),
            old(self).last_id() < u64::MAX,
        ensures
            final(self).wf(),
            id == old(self).last_id() + 1,
            final(self).last_id() == id,
            final(self).error_handlers() == old(self).error_handlers().push((id, callback)),
            forall|t: DataType| #[trigger] final(self).callbacks(t) == old(self).callbacks(t),
            final(self).listeners() == old(self).listeners(),
    {
        let id = self.next_callback_id();
        self.error_callbacks.push((id, callback));
        id
    }

    /// Removes the callbacks of a data type with an id; whether one was.
    pub fn unregister_callback(&mut self, data_type: DataType, callback_id: u64) -> (removed: bool)
        requires
            old(self).wf(),
        ensures
            final(self).wf(),
            removed == ids_of(old(self).callbacks(data_type)).contains(callback_id),
            final(self).callbacks(data_type) == without_id(old(self).callbacks(data_type), callback_id),
            forall|t: DataType| t != data_type ==> #[trigger] final(self).callbacks(t) == old(self).callbacks(t),
            final(self).listeners() == old(self).listeners(),
            final(self).error_handlers() == old(self).error_handlers(),
            final(self).last_id() == old(self).last_id(),
    {
        let mut list: Vec<(u64, C)> = Vec::new();
        match data_type {
            DataType::Ticker => std::mem::swap(&mut list, &mut self.ticker_callbacks),
            DataType::OrderBook => std::mem::swap(&mut list, &mut self.orderbook_callbacks),
            DataType::Trade => std::mem::swap(&mut list, &mut self.trade_callbacks),
            DataType::OHLC => std::mem::swap(&mut list, &mut self.ohlc_callbacks),
        }
        let (kept, removed) = remove_id(list, callback_id);
        match data_type {
            DataType::Ticker => self.ticker_callbacks = kept,
            DataType::OrderBook => self.orderbook_callbacks = kept,
            DataType::Trade => self.trade_callbacks = kept,
            DataType::OHLC => self.ohlc_callbacks = kept,
        }
        removed
    }

    /// Removes the connection listeners with an id; whether one was.
    pub fn unregister_connection_listener(&mut self, callback_id: u64) -> (removed: bool)
        requires
            old(self).wf(),
        ensures
            final(self).wf(),
            removed == ids_of(old(self).listeners()).contains(callback_id),
            final(self).listeners() == without_id(old(self).listeners(), callback_id),
            forall|t: DataType| #[trigger] final(self).callbacks(t) == old(self).callbacks(t),
            final(self).error_handlers() == old(self).error_handlers(),
            final(self).last_id() == old(self).last_id(),
    {
        let mut list: Vec<(u64, C)> = Vec::new();
        std::mem::swap(&mut list, &mut self.connection_listeners);
        let (kept, removed) = remove_id(list, callback_id);
        self.connection_listeners = kept;
        removed
    }

    /// Removes the error callbacks with an id; whether one was.
    pub fn unregister_error_callback(&mut self, callback_id: u64) -> (removed: bool)
        requires
            old(self).wf(),
        ensures
            final(self).wf(),
            removed == ids_of(old(self).error_handlers()).contains(callback_id),
            final(self).error_handlers() == without_id(old(self).error_handlers(), callback_id),
            forall|t: DataType| #[trigger] final(self).callbacks(t) == old(self).callbacks(t),
            final(self).listeners() == old(self).listeners(),
            final(self).last_id() == old(self).last_id(),
    {
        let mut list: Vec<(u64, C)> = Vec::new();
        std::mem::swap(&mut list, &mut self.error_callbacks);
        let (kept, removed) = remove_id(list, callback_id);
        self.error_callbacks = kept;
        removed
    }

    /// The number of callbacks of a data type.
    pub fn get_callback_count(&self, data_type: &DataType) -> (n: usize)
        requires
            self.wf(),
        ensures
            n == self.callbacks(*data_type).len(),
    {
        match data_type {
            DataType::Ticker => self.ticker_callbacks.len(),
            DataType::OrderBook => self.orderbook_callbacks.len(),
            DataType::Trade => self.trade_callbacks.len(),
            DataType::OHLC => self.ohlc_callbacks.len(),
        }
    }

    /// The number of connection listeners.
    pub fn get_connection_listener_count(&self) -> (n: usize)
        ensures
            n == self.listeners().len(),
    {
        self.connection_listeners.len()
    }

    /// The callbacks of a data type, with their ids, in order registered.
    pub fn callbacks_for(&self, data_type: DataType) -> (r: &Vec<(u64, C)>)
        requires
            self.wf(),
        ensures
            r@ == self.callbacks(data_type),
    {
        match data_type {
            DataType::Ticker => &self.ticker_callbacks,
            DataType::OrderBook => &self.orderbook_callbacks,
            DataType::Trade => &self.trade_callbacks,
            DataType::OHLC => &self.ohlc_callbacks,
        }
    }

    /// The connection listeners, with their ids.
    pub fn connection_listeners(&self) -> (r: &Vec<(u64, C)>)
        ensures
            r@ == self.listeners(),
    {
        &self.connection_listeners
    }

    /// The error callbacks, with their ids.
    pub fn error_callbacks(&self) -> (r: &Vec<(u64, C)>)
        ensures
            r@ == self.error_handlers(),
    {
        &self.error_callbacks
    }
}

/// Entries without those of an id, and whether there were any.
fn remove_id<C>(entries: Vec<(u64, C)>, id: u64) -> (r: (Vec<(u64, C)>, bool))
    ensures
        r.0@ == without_id(entries@, id),
        r.1 == ids_of(entries@).contains(id),
{
    let ghost all = entries@;
    let mut rest = entries;
    let mut kept: Vec<(u64, C)> = Vec::new();
    let mut removed = false;
    let ghost mut done: int = 0;
    while rest.len() > 0
        invariant
            0 <= done <= all.len(),
            rest@ == all.skip(done),
            kept@ == without_id(all.take(done), id),
            removed == ids_of(all.take(done)).contains(id),
        decreases rest@.len(),
    {
        let e = rest.remove(0);
        proof {
            assert(all.take(done + 1).drop_last() =~= all.take(done));
            assert(all.take(done + 1).last() == e);
            assert(ids_of(all.take(done + 1)) =~= ids_of(all.take(done)).push(e.0));
            assert(rest@ =~= all.skip(done + 1));
        }
        proof {
            let a = ids_of(all.take(done));
            let b = a.push(e.0);
            if e.0 == id {
                assert(b[a.len() as int] == id);
            } else {
                if b.contains(id) {
                    let w = choose|w: int| 0 <= w < b.len() && b[w] == id;
                    assert(w < a.len());
                    assert(a[w] == id);
                }
                if a.contains(id) {
                    let w = choose|w: int| 0 <= w < a.len() && a[w] == id;
                    assert(b[w] == id);
                }
            }
        }
        if e.0 == id {
            removed = true;
        } else {
            kept.push(e);
        }
        proof {
            done = done + 1;
        }
    }
    proof {
        assert(all.take(done) =~= all);
    }
    (kept, removed)
}

/// The error reported when a callback panics while handling an event:
/// `Callback <id> (index <i>) panicked while processing <what>`.
pub fn callback_panic_message(id: u64, index: usize, what: &str) -> (m: String)
    ensures
        m@ == "Callback "@ + decimal(id as nat) + " (index "@ + decimal(index as nat) + ") panicked while processing "@
            + what@,
{
    let mut m = "Callback ".to_string();
    m.append(u64_to_decimal(id).as_str());
    m.append(" (index ");
    m.append(u64_to_decimal(index as u64).as_str());
    m.append(") panicked while processing ");
    m.append(what);
    m
}

/// Ids are handed out in increasing order, so every registration gets an
/// id no earlier registration had.
pub proof fn law_ids_increase<C>(before: CallbackRegistry<C>, after: CallbackRegistry<C>, id: u64)
    requires
        id == before.last_id() + 1,
        after.last_id() == id,
    ensures
        id > before.last_id(),
        after.last_id() > before.last_id(),
{
}

/// After unregistering an id, no entry of that id is left.
pub proof fn law_unregistered_id_gone<C>(entries: Seq<(u64, C)>, id: u64)
    ensures
        !ids_of(without_id(entries, id)).contains(id),
    decreases entries.len(),
{
    if entries.len() > 0 {
        law_unregistered_id_gone(entries.drop_last(), id);
        let a = without_id(entries.drop_last(), id);
        if entries.last().0 != id {
            assert(ids_of(a.push(entries.last())) =~= ids_of(a).push(entries.last().0));
            assert forall|i: int| 0 <= i < ids_of(a).push(entries.last().0).len() implies ids_of(a).push(
                entries.last().0,
            )[i] != id by {
                if i < ids_of(a).len() {
                    assert(ids_of(a).contains(ids_of(a)[i]) ==> ids_of(a)[i] != id);
                }
            }
        }
    }
}

} // verus!
