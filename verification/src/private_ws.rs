//! The private (authenticated) WebSocket feed: its configuration, the
//! subscribe messages, the reconnect schedule, and the reading of its
//! messages into executions and order updates, with the state they keep.

use crate::clock::utc_now_micros;
use crate::decimal::{dec_of_int, dec_parse, parse_decimal};
use crate::error::{ParseError, SdkError};
use crate::json_text::{json_quoted, member_text, push_member, quote};
use crate::parser::{
    as_array, as_text, decimal_or_zero, field, json_of, micros_from_secs, parse_json_text, seconds_of, JsonValue,
};
use crate::trading::{Execution, Order, OrderSide, OrderStatus, OrderType};
use rust_decimal::Decimal;
use vstd::prelude::*;

verus! {

broadcast use vstd::string::group_string_axioms;

/// A private channel.
#[derive(Debug, Clone, Copy, PartialEq, Eq, Structural)]
pub enum PrivateChannel {
    OwnTrades,
    OpenOrders,
}

/// The API name of a private channel.
pub open spec fn channel_name(c: PrivateChannel) -> Seq<char> {
    match c {
        PrivateChannel::OwnTrades => "ownTrades"@,
        PrivateChannel::OpenOrders => "openOrders"@,
    }
}

impl PrivateChannel {
    /// The API name: `ownTrades` or `openOrders`.
    pub fn as_str(&self) -> (s: &'static str)
        ensures
            s@ == channel_name(*self),
    {
        match self {
            PrivateChannel::OwnTrades => "ownTrades",
            PrivateChannel::OpenOrders => "openOrders",
        }
    }
}

/// Configuration of the private feed.
#[derive(Debug, Clone)]
pub struct PrivateWsConfig {
    /// WebSocket authentication token (from the REST API)
    pub token: String,
    /// Channels to subscribe to
    pub channels: Vec<PrivateChannel>,
    /// Reconnect on disconnect
    pub auto_reconnect: bool,
    /// Max reconnect attempts
    pub max_reconnect_attempts: u32,
}

impl PrivateWsConfig {
    /// Both channels, reconnecting up to ten times.
    pub fn new(token: String) -> (c: Self)
        ensures
            c.token == token,
            c.channels@ == seq![PrivateChannel::OwnTrades, PrivateChannel::OpenOrders],
            c.auto_reconnect,
            c.max_reconnect_attempts == 10,
    {
        PrivateWsConfig {
            token,
            channels: vec![PrivateChannel::OwnTrades, PrivateChannel::OpenOrders],
            auto_reconnect: true,
            max_reconnect_attempts: 10,
        }
    }

    /// The configuration with other channels.
    pub fn with_channels(self, channels: Vec<PrivateChannel>) -> (c: Self)
        ensures
            c.channels == channels,
            c.token == self.token,
            c.auto_reconnect == self.auto_reconnect,
            c.max_reconnect_attempts == self.max_reconnect_attempts,
    {
        let mut this = self;
        this.channels = channels;
        this
    }
}

/// The subscribe message of a channel with a token.
pub open spec fn private_subscribe_text(c: PrivateChannel, token: Seq<char>) -> Seq<char> {
    "{"@ + member_text("event"@, json_quoted("subscribe"@)) + ","@ + member_text(
        "subscription"@,
        "{"@ + member_text("name"@, json_quoted(channel_name(c))) + ","@ + member_text("token"@, json_quoted(token)) + "}"@,
    ) + "}"@
}

/// The subscribe message of a channel.
pub fn subscribe_message(channel: PrivateChannel, token: &str) -> (m: String)
    ensures
        m@ == private_subscribe_text(channel, token@),
{
    let mut details = "{".to_string();
    push_member(&mut details, "name", quote(channel.as_str()).as_str());
    details.append(",");
    push_member(&mut details, "token", quote(token).as_str());
    details.append("}");
    let mut m = "{".to_string();
    push_member(&mut m, "event", quote("subscribe").as_str());
    m.append(",");
    push_member(&mut m, "subscription", details.as_str());
    m.append("}");
    assert(m@ =~= private_subscribe_text(channel, token@));
    m
}

/// The subscribe messages of the configured channels, in order.
pub fn subscription_messages(config: &PrivateWsConfig) -> (r: Vec<String>)
    ensures
        r@.len() == config.channels@.len(),
        forall|i: int| 0 <= i < r@.len() ==> #[trigger] r@[i]@ == private_subscribe_text(config.channels@[i], config.token@),
{
    let mut out: Vec<String> = Vec::new();
    let mut i: usize = 0;
    while i < config.channels.len()
        invariant
            i <= config.channels@.len(),
            out@.len() == i,
            forall|j: int| 0 <= j < i ==> #[trigger] out@[j]@ == private_subscribe_text(config.channels@[j], config.token@),
        decreases config.channels@.len() - i,
    {
        out.push(subscribe_message(config.channels[i], config.token.as_str()));
        i = i + 1;
    }
    out
}

/// `2^n`.
pub open spec fn pow2(n: nat) -> nat
    decreases n,
{
    if n == 0 {
        1
    } else {
        2 * pow2((n - 1) as nat)
    }
}

/// After a failed connection with `attempts` failures before it: the
/// failure count and the seconds to wait, `2^min(count, 5)`; `None` when the
/// feed does not reconnect or the attempts are used up.
pub open spec fn reconnect_plan(auto_reconnect: bool, max_attempts: u32, attempts: u32) -> Option<(u32, u64)> {
    if !auto_reconnect || attempts + 1 > max_attempts {
        None
    } else {
        let n = (attempts + 1) as nat;
        Some(((attempts + 1) as u32, pow2(if n < 5 { n } else { 5 }) as u64))
    }
}

/// What to do after a failed connection.
pub fn next_reconnect(config: &PrivateWsConfig, attempts: u32) -> (r: Option<(u32, u64)>)
    requires
        attempts < u32::MAX,
    ensures
        r == reconnect_plan(config.auto_reconnect, config.max_reconnect_attempts, attempts),
{
    if !config.auto_reconnect {
        return None;
    }
    let n = attempts + 1;
    if n > config.max_reconnect_attempts {
        return None;
    }
    let delay: u64 = if n == 1 {
        2
    } else if n == 2 {
        4
    } else if n == 3 {
        8
    } else if n == 4 {
        16
    } else {
        32
    };
    proof {
        reveal_with_fuel(pow2, 6);
    }
    Some((n, delay))
}

/// An order status update.
#[derive(Debug, Clone)]
pub struct OrderUpdate {
    pub txid: String,
    pub status: OrderStatus,
    pub volume_exec: Decimal,
    pub avg_price: Option<Decimal>,
    pub fee: Option<Decimal>,
    /// When the update was read, microseconds since the Unix epoch (UTC)
    pub timestamp: i64,
}

/// A balance change.
#[derive(Debug, Clone)]
pub struct BalanceUpdate {
    pub asset: String,
    pub balance: Decimal,
    pub available: Decimal,
    /// Microseconds since the Unix epoch (UTC)
    pub timestamp: i64,
}

/// A message of the private feed, read.
#[derive(Debug)]
pub enum PrivateMessage {
    /// A status, subscription or heartbeat message: nothing to do
    System,
    /// An error reported by the feed
    Error(String),
    /// Own trades
    Executions(Vec<Execution>),
    /// Open order updates
    OrderUpdates(Vec<OrderUpdate>),
    /// Anything else
    Ignored,
}

/// The text of the member `key` of a value, if it is a string.
pub open spec fn text_at(v: JsonValue, key: Seq<char>) -> Option<Seq<char>> {
    match field(v, key) {
        Some(x) => as_text(x),
        None => None,
    }
}

/// The decimal at the member `key`, zero when missing or not a decimal.
pub open spec fn decimal_at(v: JsonValue, key: Seq<char>) -> Decimal {
    match text_at(v, key) {
        Some(t) => match dec_parse(t) {
            Some(d) => d,
            None => dec_of_int(0),
        },
        None => dec_of_int(0),
    }
}

/// The decimal at the member `key`, if it is a decimal text.
pub open spec fn optional_decimal_at(v: JsonValue, key: Seq<char>) -> Option<Decimal> {
    match text_at(v, key) {
        Some(t) => dec_parse(t),
        None => None,
    }
}

/// The order status named by a text; `Open` for any other text.
pub open spec fn status_named(t: Seq<char>) -> OrderStatus {
    if t == "pending"@ {
        OrderStatus::Pending
    } else if t == "closed"@ {
        OrderStatus::Closed
    } else if t == "canceled"@ {
        OrderStatus::Canceled
    } else if t == "expired"@ {
        OrderStatus::Expired
    } else {
        OrderStatus::Open
    }
}

/// The (key, value) members of the objects in an array value, in order.
pub open spec fn entries_of(v: JsonValue) -> Seq<(String, JsonValue)> {
    match as_array(v) {
        Some(items) => object_entries(items),
        None => Seq::empty(),
    }
}

/// The members of the object items, in order; other items give none.
pub open spec fn object_entries(items: Seq<JsonValue>) -> Seq<(String, JsonValue)>
    decreases items.len(),
{
    if items.len() == 0 {
        Seq::empty()
    } else {
        object_entries(items.drop_last()) + match items.last() {
            JsonValue::Object(f) => f@,
            _ => Seq::empty(),
        }
    }
}

/// Whether an execution was read from a trade's id and data.
pub open spec fn execution_read(e: Execution, id: Seq<char>, data: JsonValue) -> bool {
    &&& e.trade_id@ == id
    &&& e.order_txid@ == (match text_at(data, "ordertxid"@) {
        Some(t) => t,
        None => Seq::empty(),
    })
    &&& e.pair@ == (match text_at(data, "pair"@) {
        Some(t) => t,
        None => Seq::empty(),
    })
    &&& e.side == (if text_at(data, "type"@) == Some("buy"@) { OrderSide::Buy } else { OrderSide::Sell })
    &&& e.order_type == OrderType::Limit
    &&& e.price == decimal_at(data, "price"@)
    &&& e.volume == decimal_at(data, "vol"@)
    &&& e.cost == decimal_at(data, "cost"@)
    &&& e.fee == decimal_at(data, "fee"@)
    &&& e.fee_currency@ == "USD"@
}

/// Whether an order update was read from an order's id and data.
pub open spec fn update_read(u: OrderUpdate, txid: Seq<char>, data: JsonValue) -> bool {
    &&& u.txid@ == txid
    &&& u.status == (match text_at(data, "status"@) {
        Some(t) => status_named(t),
        None => OrderStatus::Open,
    })
    &&& u.volume_exec == decimal_at(data, "vol_exec"@)
    &&& u.avg_price == optional_decimal_at(data, "avg_price"@)
    &&& u.fee == optional_decimal_at(data, "fee"@)
}

/// The event named by a message, if it has one.
pub open spec fn event_of(v: JsonValue) -> Option<Seq<char>> {
    text_at(v, "event"@)
}

/// The channel a data message is for: the text of its last item.
pub open spec fn data_channel(v: JsonValue) -> Option<Seq<char>> {
    match as_array(v) {
        Some(a) => if a.len() >= 2 {
            Some(
                match as_text(a.last()) {
                    Some(t) => t,
                    None => Seq::empty(),
                },
            )
        } else {
            None
        },
        None => None,
    }
}

/// The kind of a message: `0` system, `1` error, `2` own trades, `3` open
/// orders, `4` anything else.
pub open spec fn message_kind(v: JsonValue) -> u8 {
    let e = event_of(v);
    if e == Some("systemStatus"@) || e == Some("subscriptionStatus"@) || e == Some("heartbeat"@) {
        0
    } else if e == Some("error"@) {
        1
    } else if data_channel(v) == Some("ownTrades"@) {
        2
    } else if data_channel(v) == Some("openOrders"@) {
        3
    } else {
        4
    }
}

/// The text of an optional JSON value if it is a string.
pub(crate) fn opt_text(v: Option<&JsonValue>) -> (r: Option<&str>)
    ensures
        r matches Some(t) ==> (v matches Some(x) && as_text(*x) == Some(t@)),
        r is None ==> (v is None || (v matches Some(x) && as_text(*x) is None)),
{
    match v {
        Some(x) => x.as_str(),
        None => None,
    }
}

/// The text at a member, empty when missing.
pub(crate) fn text_or_empty(v: &JsonValue, key: &str) -> (t: String)
    ensures
        t@ == (match text_at(*v, key@) {
            Some(x) => x,
            None => Seq::empty(),
        }),
{
    match opt_text(v.get(key)) {
        Some(t) => t.to_string(),
        None => String::new(),
    }
}

/// The decimal at a member, zero when missing or not a decimal.
pub(crate) fn decimal_field(v: &JsonValue, key: &str) -> (d: Decimal)
    ensures
        d == decimal_at(*v, key@),
{
    match opt_text(v.get(key)) {
        Some(t) => decimal_or_zero(t),
        None => crate::decimal::dec_from_i64(0),
    }
}

/// The decimal at a member, if it is a decimal text.
pub(crate) fn optional_decimal_field(v: &JsonValue, key: &str) -> (d: Option<Decimal>)
    ensures
        d == optional_decimal_at(*v, key@),
{
    match opt_text(v.get(key)) {
        Some(t) => parse_decimal(t),
        None => None,
    }
}

/// Whether an optional JSON value is the given text.
pub(crate) fn is_text(v: Option<&JsonValue>, t: &str) -> (b: bool)
    ensures
        b == (match v {
            Some(x) => as_text(*x) == Some(t@),
            None => false,
        }),
{
    match opt_text(v) {
        Some(s) => s.to_string() == t.to_string(),
        None => false,
    }
}

/// The status named by a text.
fn parse_status(t: &str) -> (s: OrderStatus)
    ensures
        s == status_named(t@),
{
    let v = t.to_string();
    if v == "pending".to_string() {
        OrderStatus::Pending
    } else if v == "closed".to_string() {
        OrderStatus::Closed
    } else if v == "canceled".to_string() {
        OrderStatus::Canceled
    } else if v == "expired".to_string() {
        OrderStatus::Expired
    } else {
        OrderStatus::Open
    }
}

/// Reads an execution; its time is the whole seconds of its `time` text,
/// the current time when there is none.
fn read_execution(id: &String, data: &JsonValue) -> (e: Execution)
    ensures
        execution_read(e, id@, *data),
{
    let time = match opt_text(data.get("time")) {
        Some(t) => match micros_from_secs(seconds_of(t)) {
            Some(m) => m,
            None => utc_now_micros(),
        },
        None => utc_now_micros(),
    };
    Execution {
        trade_id: id.clone(),
        order_txid: text_or_empty(data, "ordertxid"),
        pair: text_or_empty(data, "pair"),
        side: if is_text(data.get("type"), "buy") { OrderSide::Buy } else { OrderSide::Sell },
        order_type: OrderType::Limit,
        price: decimal_field(data, "price"),
        volume: decimal_field(data, "vol"),
        cost: decimal_field(data, "cost"),
        fee: decimal_field(data, "fee"),
        fee_currency: "USD".to_string(),
        time,
    }
}

/// Reads an order update, stamped with the current time.
fn read_update(txid: &String, data: &JsonValue) -> (u: OrderUpdate)
    ensures
        update_read(u, txid@, *data),
{
    let status = match opt_text(data.get("status")) {
        Some(t) => parse_status(t),
        None => OrderStatus::Open,
    };
    OrderUpdate {
        txid: txid.clone(),
        status,
        volume_exec: decimal_field(data, "vol_exec"),
        avg_price: optional_decimal_field(data, "avg_price"),
        fee: optional_decimal_field(data, "fee"),
        timestamp: utc_now_micros(),
    }
}

/// The members of the objects in an array value, in order.
fn collect_entries(v: &JsonValue) -> (r: Vec<&(String, JsonValue)>)
    ensures
        r@.len() == entries_of(*v).len(),
        forall|i: int| 0 <= i < r@.len() ==> *r@[i] == entries_of(*v)[i],
{
    let mut out: Vec<&(String, JsonValue)> = Vec::new();
    match v.as_array() {
        None => {
            return out;
        },
        Some(items) => {
            let mut i: usize = 0;
            while i < items.len()
                invariant
                    i <= items@.len(),
                    entries_of(*v) == object_entries(items@),
                    out@.len() == object_entries(items@.take(i as int)).len(),
                    forall|j: int| 0 <= j < out@.len() ==> *out@[j] == object_entries(items@.take(i as int))[j],
                decreases items@.len() - i,
            {
                assert(items@.take(i + 1).drop_last() =~= items@.take(i as int));
                assert(items@.take(i + 1).last() == items@[i as int]);
                let ghost before = object_entries(items@.take(i as int));
                match &items[i] {
                    JsonValue::Object(fields) => {
                        let mut k: usize = 0;
                        while k < fields.len()
                            invariant
                                k <= fields@.len(),
                                out@.len() == before.len() + k,
                                forall|j: int| 0 <= j < out@.len() ==> *out@[j] == (before + fields@)[j],
                            decreases fields@.len() - k,
                        {
                            out.push(&fields[k]);
                            k = k + 1;
                        }
                    },
                    _ => {},
                }
                i = i + 1;
            }
            assert(items@.take(i as int) =~= items@);
            out
        },
    }
}

/// Whether `r` is what the JSON value of a private feed message reads as.
pub open spec fn private_read(v: JsonValue, r: Result<PrivateMessage, SdkError>) -> bool {
    match message_kind(v) {
        0 => r matches Ok(PrivateMessage::System),
        1 => r matches Ok(PrivateMessage::Error(m)) && m@ == (match text_at(v, "errorMessage"@) {
            Some(t) => t,
            None => "Unknown error"@,
        }),
        2 => r matches Ok(PrivateMessage::Executions(es)) && es@.len() == entries_of(as_array(v)->0[0]).len()
            && forall|i: int|
            0 <= i < es@.len() ==> execution_read(
                #[trigger] es@[i],
                entries_of(as_array(v)->0[0])[i].0@,
                entries_of(as_array(v)->0[0])[i].1,
            ),
        3 => r matches Ok(PrivateMessage::OrderUpdates(us)) && us@.len() == entries_of(as_array(v)->0[0]).len()
            && forall|i: int|
            0 <= i < us@.len() ==> update_read(
                #[trigger] us@[i],
                entries_of(as_array(v)->0[0])[i].0@,
                entries_of(as_array(v)->0[0])[i].1,
            ),
        _ => r matches Ok(PrivateMessage::Ignored),
    }
}

/// Reads a message of the private feed (`Err` with the parser's reason when
/// it is not JSON): status messages need nothing, an error message gives its
/// text, and data messages for own trades or open orders give the
/// executions or updates of the objects in their first item.
pub fn read_private_message(message: Result<&JsonValue, String>) -> (r: Result<PrivateMessage, SdkError>)
    ensures
        match message {
            Err(reason) => r matches Err(SdkError::Parse(ParseError::InvalidJson(m))) && m@ == reason@,
            Ok(v) => private_read(*v, r),
        },
{
    let v = match message {
        Err(reason) => return Err(SdkError::Parse(ParseError::InvalidJson(reason))),
        Ok(v) => v,
    };
    proof {
        reveal_strlit("systemStatus");
        reveal_strlit("subscriptionStatus");
        reveal_strlit("heartbeat");
        reveal_strlit("error");
        reveal_strlit("ownTrades");
        reveal_strlit("openOrders");
        assert("error"@.len() != "heartbeat"@.len());
        assert("error"@.len() != "systemStatus"@.len());
        assert("error"@.len() != "subscriptionStatus"@.len());
        assert("ownTrades"@ != "openOrders"@) by {
            assert("ownTrades"@[1] != "openOrders"@[1]);
        }
    }
    let event = v.get("event");
    if is_text(event, "systemStatus") || is_text(event, "subscriptionStatus") || is_text(event, "heartbeat") {
        return Ok(PrivateMessage::System);
    }
    if is_text(event, "error") {
        let m = match opt_text(v.get("errorMessage")) {
            Some(t) => t.to_string(),
            None => "Unknown error".to_string(),
        };
        return Ok(PrivateMessage::Error(m));
    }
    if let Some(arr) = v.as_array() {
        if arr.len() >= 2 {
            let channel = match arr[arr.len() - 1].as_str() {
                Some(t) => t.to_string(),
                None => String::new(),
            };
            if channel == "ownTrades".to_string() {
                let entries = collect_entries(&arr[0]);
                let mut out: Vec<Execution> = Vec::new();
                let mut i: usize = 0;
                while i < entries.len()
                    invariant
                        i <= entries@.len(),
                        out@.len() == i,
                        forall|j: int| 0 <= j < i ==> execution_read(#[trigger] out@[j], entries@[j].0@, entries@[j].1),
                    decreases entries@.len() - i,
                {
                    out.push(read_execution(&entries[i].0, &entries[i].1));
                    i = i + 1;
                }
                return Ok(PrivateMessage::Executions(out));
            }
            if channel == "openOrders".to_string() {
                let entries = collect_entries(&arr[0]);
                let mut out: Vec<OrderUpdate> = Vec::new();
                let mut i: usize = 0;
                while i < entries.len()
                    invariant
                        i <= entries@.len(),
                        out@.len() == i,
                        forall|j: int| 0 <= j < i ==> update_read(#[trigger] out@[j], entries@[j].0@, entries@[j].1),
                    decreases entries@.len() - i,
                {
                    out.push(read_update(&entries[i].0, &entries[i].1));
                    i = i + 1;
                }
                return Ok(PrivateMessage::OrderUpdates(out));
            }
        }
    }
    Ok(PrivateMessage::Ignored)
}

/// Reads a message of the private feed given as text; text that is not
/// JSON is an error with the parser's message.
pub fn read_private_message_text(text: &str) -> (r: Result<PrivateMessage, SdkError>)
    ensures
        match json_of(text@) {
            Some(v) => private_read(v, r),
            None => r matches Err(SdkError::Parse(ParseError::InvalidJson(_))),
        },
{
    match parse_json_text(text) {
        Ok(v) => read_private_message(Ok(&v)),
        Err(reason) => read_private_message(Err(reason)),
    }
}

/// The number of recent executions kept.
pub open spec fn execution_limit() -> nat {
    100
}

/// Whether a status ends an order's life.
pub open spec fn is_final(s: OrderStatus) -> bool {
    s == OrderStatus::Closed || s == OrderStatus::Canceled || s == OrderStatus::Expired
}

/// What the private feed keeps: the open orders by id and the recent
/// executions.
#[derive(Debug)]
pub struct PrivateState {
    open_orders: Vec<(String, Order)>,
    recent_executions: Vec<Execution>,
}

impl PrivateState {
    /// The ids of the open orders kept, in order.
    pub closed spec fn order_ids(&self) -> Seq<Seq<char>> {
        self.open_orders@.map_values(|e: (String, Order)| e.0@)
    }

    /// The recent executions, oldest first.
    pub closed spec fn executions(&self) -> Seq<Execution> {
        self.recent_executions@
    }

    /// Nothing kept.
    pub fn new() -> (s: Self)
        ensures
            s.order_ids() == Seq::<Seq<char>>::empty(),
            s.executions() == Seq::<Execution>::empty(),
    {
        let s = PrivateState { open_orders: Vec::new(), recent_executions: Vec::new() };
        assert(s.order_ids() =~= Seq::<Seq<char>>::empty());
        s
    }

    /// Keeps an execution, dropping the oldest beyond the last hundred.
    pub fn record_execution(&mut self, e: Execution)
        ensures
            final(self).executions() == (if old(self).executions().len() + 1 > execution_limit() {
                old(self).executions().push(e).skip(1)
            } else {
                old(self).executions().push(e)
            }),
            final(self).order_ids() == old(self).order_ids(),
    {
        self.recent_executions.push(e);
        if self.recent_executions.len() > 100 {
            self.recent_executions.remove(0);
            assert(self.recent_executions@ =~= old(self).executions().push(e).skip(1));
        }
    }

    /// Applies an order update: an order whose status ends its life is
    /// forgotten.
    pub fn apply_order_update(&mut self, u: &OrderUpdate)
        ensures
            final(self).executions() == old(self).executions(),
            is_final(u.status) ==> final(self).order_ids() == crate::sdk::others(old(self).order_ids(), u.txid@),
            !is_final(u.status) ==> final(self).order_ids() == old(self).order_ids(),
    {
        match u.status {
            OrderStatus::Closed | OrderStatus::Canceled | OrderStatus::Expired => {
                let mut kept: Vec<(String, Order)> = Vec::new();
                while self.open_orders.len() > 0
                    invariant
                        crate::sdk::others(old(self).order_ids(), u.txid@) == kept@.map_values(
                            |e: (String, Order)| e.0@,
                        ) + crate::sdk::others(self.order_ids(), u.txid@),
                        self.recent_executions@ == old(self).recent_executions@,
                    decreases self.open_orders@.len(),
                {
                    let ghost before = self.order_ids();
                    let e = self.open_orders.remove(0);
                    proof {
                        assert(before =~= seq![e.0@] + self.order_ids());
                        crate::sdk::lemma_others_prepend(e.0@, self.order_ids(), u.txid@);
                    }
                    let ghost prev = kept@.map_values(|x: (String, Order)| x.0@);
                    if e.0 != u.txid {
                        kept.push(e);
                        assert(kept@.map_values(|x: (String, Order)| x.0@) =~= prev.push(e.0@));
                    }
                }
                self.open_orders = kept;
            },
            _ => {},
        }
    }

    /// The number of open orders kept.
    pub fn open_order_count(&self) -> (n: usize)
        ensures
            n == self.order_ids().len(),
    {
        self.open_orders.len()
    }

    /// The open orders kept, each under its id, in order.
    pub fn open_orders(&self) -> (r: &Vec<(String, Order)>)
        ensures
            r@.map_values(|e: (String, Order)| e.0@) == self.order_ids(),
    {
        &self.open_orders
    }

    /// The recent executions, oldest first.
    pub fn get_recent_executions(&self) -> (r: &Vec<Execution>)
        ensures
            r@ == self.executions(),
    {
        &self.recent_executions
    }
}

} // verus!
