//! Batch orders, OCO (one-cancels-other) pairs and bracket orders, with
//! position sizing helpers in [`sizing`].

pub mod sizing;

use crate::trading::{OrderRequest, OrderResponse, OrderSide};
use rust_decimal::Decimal;
use vstd::prelude::*;

verus! {

/// Orders submitted together.
#[derive(Debug, Clone)]
pub struct BatchOrderRequest {
    pub orders: Vec<OrderRequest>,
    /// If true, fail all if any fails
    pub atomic: bool,
}

impl BatchOrderRequest {
    /// An empty, atomic batch.
    pub fn new() -> (b: Self)
        ensures
            b.orders@.len() == 0,
            b.atomic,
    {
        BatchOrderRequest { orders: Vec::new(), atomic: true }
    }

    /// The batch with one more order at its end.
    pub fn add(self, order: OrderRequest) -> (b: Self)
        ensures
            b.orders@ == self.orders@.push(order),
            b.atomic == self.atomic,
    {
        let mut this = self;
        this.orders.push(order);
        this
    }

    /// The batch, not atomic: orders that succeed stand when others fail.
    pub fn non_atomic(self) -> (b: Self)
        ensures
            b.orders@ == self.orders@,
            !b.atomic,
    {
        let mut this = self;
        this.atomic = false;
        this
    }
}

/// Batch order result.
#[derive(Debug, Clone)]
pub struct BatchOrderResult {
    pub successful: Vec<OrderResponse>,
    pub failed: Vec<BatchOrderError>,
    pub all_succeeded: bool,
}

/// An order of a batch that failed.
#[derive(Debug, Clone)]
pub struct BatchOrderError {
    pub index: usize,
    pub order: OrderRequest,
    pub error: String,
}

/// OCO (One-Cancels-Other) order pair: when one order fills, the other is
/// cancelled.
#[derive(Debug, Clone)]
pub struct OcoOrder {
    pub pair: String,
    pub side: OrderSide,
    pub volume: Decimal,
    /// Primary order (e.g., limit buy)
    pub primary_price: Decimal,
    /// Secondary order (e.g., stop loss)
    pub secondary_price: Decimal,
    /// Client ID prefix for tracking
    pub client_id_prefix: Option<String>,
}

impl OcoOrder {
    /// A buy OCO: limit buy and a stop.
    pub fn buy_with_stop(pair: &str, volume: Decimal, limit_price: Decimal, stop_price: Decimal) -> (o: Self)
        ensures
            o.pair@ == pair@,
            o.side == OrderSide::Buy,
            o.volume == volume,
            o.primary_price == limit_price,
            o.secondary_price == stop_price,
            o.client_id_prefix is None,
    {
        OcoOrder {
            pair: pair.to_string(),
            side: OrderSide::Buy,
            volume,
            primary_price: limit_price,
            secondary_price: stop_price,
            client_id_prefix: None,
        }
    }

    /// A sell OCO: limit sell and a stop.
    pub fn sell_with_stop(pair: &str, volume: Decimal, limit_price: Decimal, stop_price: Decimal) -> (o: Self)
        ensures
            o.pair@ == pair@,
            o.side == OrderSide::Sell,
            o.volume == volume,
            o.primary_price == limit_price,
            o.secondary_price == stop_price,
            o.client_id_prefix is None,
    {
        OcoOrder {
            pair: pair.to_string(),
            side: OrderSide::Sell,
            volume,
            primary_price: limit_price,
            secondary_price: stop_price,
            client_id_prefix: None,
        }
    }

    /// The pair with a client id prefix.
    pub fn with_client_id(self, prefix: &str) -> (o: Self)
        ensures
            o.client_id_prefix matches Some(p) && p@ == prefix@,
            o == (OcoOrder { client_id_prefix: o.client_id_prefix, ..self }),
    {
        let mut this = self;
        this.client_id_prefix = Some(prefix.to_string());
        this
    }
}

/// OCO order result.
#[derive(Debug, Clone)]
pub struct OcoOrderResult {
    pub primary_txid: String,
    pub secondary_txid: String,
    pub oco_id: String,
}

/// Bracket order: entry, take profit and stop loss.
#[derive(Debug, Clone)]
pub struct BracketOrder {
    pub pair: String,
    pub side: OrderSide,
    pub volume: Decimal,
    /// Entry price (limit order)
    pub entry_price: Decimal,
    /// Take profit price
    pub take_profit_price: Decimal,
    /// Stop loss price
    pub stop_loss_price: Decimal,
    pub client_id_prefix: Option<String>,
}

/// Whether a bracket has the given parts and no client id.
pub open spec fn bracket_of(
    b: BracketOrder,
    pair: Seq<char>,
    side: OrderSide,
    volume: Decimal,
    entry: Decimal,
    take_profit: Decimal,
    stop_loss: Decimal,
) -> bool {
    &&& b.pair@ == pair
    &&& b.side == side
    &&& b.volume == volume
    &&& b.entry_price == entry
    &&& b.take_profit_price == take_profit
    &&& b.stop_loss_price == stop_loss
    &&& b.client_id_prefix is None
}

impl BracketOrder {
    /// A long bracket: buy entry, sell take profit, sell stop loss.
    pub fn long(pair: &str, volume: Decimal, entry: Decimal, take_profit: Decimal, stop_loss: Decimal) -> (b: Self)
        ensures
            bracket_of(b, pair@, OrderSide::Buy, volume, entry, take_profit, stop_loss),
    {
        BracketOrder {
            pair: pair.to_string(),
            side: OrderSide::Buy,
            volume,
            entry_price: entry,
            take_profit_price: take_profit,
            stop_loss_price: stop_loss,
            client_id_prefix: None,
        }
    }

    /// A short bracket: sell entry, buy take profit, buy stop loss.
    pub fn short(pair: &str, volume: Decimal, entry: Decimal, take_profit: Decimal, stop_loss: Decimal) -> (b: Self)
        ensures
            bracket_of(b, pair@, OrderSide::Sell, volume, entry, take_profit, stop_loss),
    {
        BracketOrder {
            pair: pair.to_string(),
            side: OrderSide::Sell,
            volume,
            entry_price: entry,
            take_profit_price: take_profit,
            stop_loss_price: stop_loss,
            client_id_prefix: None,
        }
    }

    /// The bracket with a client id prefix.
    pub fn with_client_id(self, prefix: &str) -> (b: Self)
        ensures
            b.client_id_prefix matches Some(p) && p@ == prefix@,
            b == (BracketOrder { client_id_prefix: b.client_id_prefix, ..self }),
    {
        let mut this = self;
        this.client_id_prefix = Some(prefix.to_string());
        this
    }
}

/// Bracket order result.
#[derive(Debug, Clone)]
pub struct BracketOrderResult {
    pub entry_txid: String,
    pub take_profit_txid: String,
    pub stop_loss_txid: String,
    pub bracket_id: String,
}

} // verus!
