//! The REST API's requests and replies, without the transport: the private
//! endpoint paths, the form bodies that are signed, the query parameters,
//! the reading of errors and balances, and the names of order types and
//! statuses.

use crate::decimal::{checked_sub, decimal_from_str, dec_from_i64, dec_of_int, dec_parse, dec_sub, dec_text, to_text};
use crate::error::{ParseError, SdkError};
use crate::decimal::{checked_div, dec_div, dec_lt, units};
use crate::parser::{field, JsonValue};
use crate::private_ws::{
    decimal_at, decimal_field, is_text, opt_text, optional_decimal_at, optional_decimal_field, status_named, text_at,
    text_or_empty,
};
use crate::text::{decimal, signed_decimal, i64_to_decimal, u64_to_decimal};
use crate::trading::{AssetBalance, EditOrderRequest, Execution, Order, OrderSide, OrderStatus, OrderType, Position};
use rust_decimal::Decimal;
use vstd::prelude::*;

verus! {

broadcast use vstd::string::group_string_axioms;

/// The base URL of the REST API.
pub open spec fn api_base() -> Seq<char> {
    "https://api.kraken.com"@
}

/// The path of a private endpoint: `/0/private/<endpoint>`.
pub open spec fn private_path_of(endpoint: Seq<char>) -> Seq<char> {
    "/0/private/"@ + endpoint
}

/// The path of a private endpoint.
pub fn private_path(endpoint: &str) -> (p: String)
    ensures
        p@ == private_path_of(endpoint@),
{
    let mut p = "/0/private/".to_string();
    p.append(endpoint);
    p
}

/// The URL of a path.
pub fn api_url(path: &str) -> (u: String)
    ensures
        u@ == api_base() + path@,
{
    let mut u = "https://api.kraken.com".to_string();
    u.append(path);
    u
}

/// `key=value` pairs joined by `&`.
pub open spec fn form_of(params: Seq<(Seq<char>, Seq<char>)>) -> Seq<char>
    decreases params.len(),
{
    if params.len() == 0 {
        Seq::empty()
    } else if params.len() == 1 {
        params[0].0 + "="@ + params[0].1
    } else {
        form_of(params.drop_last()) + "&"@ + params.last().0 + "="@ + params.last().1
    }
}

/// The form body of a private request: the nonce first, then the
/// parameters, each as `key=value`, joined by `&`.
pub open spec fn post_body_of(nonce: u64, params: Seq<(Seq<char>, Seq<char>)>) -> Seq<char> {
    form_of(seq![("nonce"@, decimal(nonce as nat))] + params)
}

/// Pairs of strings as texts.
pub open spec fn pair_texts(v: Seq<(String, String)>) -> Seq<(Seq<char>, Seq<char>)> {
    v.map_values(|p: (String, String)| (p.0@, p.1@))
}

/// The form body of a private request.
pub fn post_body(nonce: u64, params: &Vec<(String, String)>) -> (b: String)
    ensures
        b@ == post_body_of(nonce, pair_texts(params@)),
{
    let ghost all = seq![("nonce"@, decimal(nonce as nat))] + pair_texts(params@);
    let mut body = "nonce=".to_string();
    let n = u64_to_decimal(nonce);
    body.append(n.as_str());
    assert(all.take(1) =~= seq![all[0]]);
    proof {
        reveal_strlit("nonce=");
        reveal_strlit("nonce");
        reveal_strlit("=");
        assert(body@ =~= "nonce"@ + "="@ + decimal(nonce as nat));
    }
    let mut i: usize = 0;
    while i < params.len()
        invariant
            i <= params@.len(),
            all == seq![("nonce"@, decimal(nonce as nat))] + pair_texts(params@),
            body@ == form_of(all.take(i + 1)),
        decreases params@.len() - i,
    {
        assert(all.take(i + 2).drop_last() =~= all.take(i + 1));
        assert(all.take(i + 2).last() == all[i + 1]);
        body.append("&");
        body.append(params[i].0.as_str());
        body.append("=");
        body.append(params[i].1.as_str());
        i = i + 1;
    }
    assert(all.take(i + 1) =~= all);
    body
}

/// Texts joined by `, `.
pub open spec fn joined_errors(es: Seq<Seq<char>>) -> Seq<char>
    decreases es.len(),
{
    if es.len() == 0 {
        Seq::empty()
    } else if es.len() == 1 {
        es[0]
    } else {
        joined_errors(es.drop_last()) + ", "@ + es.last()
    }
}

/// The error of a reply whose `error` list holds these messages: a
/// `Network` error with them joined by `, `, none for an empty list.
pub fn api_error(errors: &Vec<String>) -> (r: Option<SdkError>)
    ensures
        errors@.len() == 0 <==> r is None,
        r matches Some(e) ==> (e matches SdkError::Network(m) && m@ == joined_errors(
            errors@.map_values(|s: String| s@),
        )),
{
    if errors.len() == 0 {
        return None;
    }
    let ghost views = errors@.map_values(|s: String| s@);
    let mut text = errors[0].clone();
    assert(views.take(1) =~= seq![views[0]]);
    let mut i: usize = 1;
    while i < errors.len()
        invariant
            1 <= i <= errors@.len(),
            views == errors@.map_values(|s: String| s@),
            text@ == joined_errors(views.take(i as int)),
        decreases errors@.len() - i,
    {
        assert(views.take(i + 1).drop_last() =~= views.take(i as int));
        text.append(", ");
        text.append(errors[i].as_str());
        i = i + 1;
    }
    assert(views.take(i as int) =~= views);
    Some(SdkError::Network(text))
}

/// The order type named by a text; `Limit` for any other text.
pub open spec fn order_type_named(t: Seq<char>) -> OrderType {
    if t == "market"@ {
        OrderType::Market
    } else if t == "stop-loss"@ {
        OrderType::StopLoss
    } else if t == "take-profit"@ {
        OrderType::TakeProfit
    } else if t == "stop-loss-limit"@ {
        OrderType::StopLossLimit
    } else if t == "take-profit-limit"@ {
        OrderType::TakeProfitLimit
    } else {
        OrderType::Limit
    }
}

/// The order type named by a text.
pub fn parse_order_type(s: &str) -> (t: OrderType)
    ensures
        t == order_type_named(s@),
{
    let v = s.to_string();
    if v == "market".to_string() {
        OrderType::Market
    } else if v == "stop-loss".to_string() {
        OrderType::StopLoss
    } else if v == "take-profit".to_string() {
        OrderType::TakeProfit
    } else if v == "stop-loss-limit".to_string() {
        OrderType::StopLossLimit
    } else if v == "take-profit-limit".to_string() {
        OrderType::TakeProfitLimit
    } else {
        OrderType::Limit
    }
}

/// The order status named by a text; `Open` for any other text.
pub fn parse_order_status(s: &str) -> (st: OrderStatus)
    ensures
        st == status_named(s@),
{
    let v = s.to_string();
    if v == "pending".to_string() {
        OrderStatus::Pending
    } else if v == "closed".to_string() {
        OrderStatus::Closed
    } else if v == "canceled".to_string() {
        OrderStatus::Canceled
    } else if v == "expired".to_string() {
        OrderStatus::Expired
    } else {
        OrderStatus::Open
    }
}

/// The parameters of an order edit: the id, then volume, price and price2
/// where given.
pub open spec fn edit_params_of(r: EditOrderRequest) -> Seq<(Seq<char>, Seq<char>)> {
    seq![("txid"@, r.txid@)] + match r.volume {
        Some(v) => seq![("volume"@, dec_text(v))],
        None => Seq::empty(),
    } + match r.price {
        Some(p) => seq![("price"@, dec_text(p))],
        None => Seq::empty(),
    } + match r.price2 {
        Some(p) => seq![("price2"@, dec_text(p))],
        None => Seq::empty(),
    }
}

/// The parameters of an order edit.
pub fn edit_order_params(request: &EditOrderRequest) -> (r: Vec<(String, String)>)
    ensures
        pair_texts(r@) == edit_params_of(*request),
{
    let mut params: Vec<(String, String)> = Vec::new();
    params.push(("txid".to_string(), request.txid.clone()));
    let ghost a = pair_texts(params@);
    if let Some(v) = &request.volume {
        params.push(("volume".to_string(), to_text(v)));
    }
    let ghost b = pair_texts(params@);
    assert(b =~= a + match request.volume {
        Some(v) => seq![("volume"@, dec_text(v))],
        None => Seq::<(Seq<char>, Seq<char>)>::empty(),
    });
    if let Some(p) = &request.price {
        params.push(("price".to_string(), to_text(p)));
    }
    let ghost c = pair_texts(params@);
    assert(c =~= b + match request.price {
        Some(p) => seq![("price"@, dec_text(p))],
        None => Seq::<(Seq<char>, Seq<char>)>::empty(),
    });
    if let Some(p) = &request.price2 {
        params.push(("price2".to_string(), to_text(p)));
    }
    assert(pair_texts(params@) =~= c + match request.price2 {
        Some(p) => seq![("price2"@, dec_text(p))],
        None => Seq::<(Seq<char>, Seq<char>)>::empty(),
    });
    params
}

/// The parameters of the cancel-all timer: `timeout` in seconds.
pub fn cancel_after_params(timeout_seconds: u32) -> (r: Vec<(String, String)>)
    ensures
        pair_texts(r@) == seq![("timeout"@, decimal(timeout_seconds as nat))],
{
    let r = vec![("timeout".to_string(), u64_to_decimal(timeout_seconds as u64))];
    assert(pair_texts(r@) =~= seq![("timeout"@, decimal(timeout_seconds as nat))]);
    r
}

/// The parameters of a cancel: `txid`.
pub fn cancel_params(txid: &str) -> (r: Vec<(String, String)>)
    ensures
        pair_texts(r@) == seq![("txid"@, txid@)],
{
    let r = vec![("txid".to_string(), txid.to_string())];
    assert(pair_texts(r@) =~= seq![("txid"@, txid@)]);
    r
}

/// Whole seconds of a time in microseconds (rounded down).
pub open spec fn seconds_of_micros(t: i64) -> int {
    t / 1_000_000
}

/// The range and offset of a history query: `start` and `end` in whole
/// seconds and `ofs`, each where given.
pub open spec fn history_params_of(start: Option<i64>, end: Option<i64>, offset: Option<u32>) -> Seq<(Seq<char>, Seq<char>)> {
    let a: Seq<(Seq<char>, Seq<char>)> = match start {
        Some(s) => seq![("start"@, signed_decimal(seconds_of_micros(s)))],
        None => Seq::empty(),
    };
    let b: Seq<(Seq<char>, Seq<char>)> = match end {
        Some(e) => seq![("end"@, signed_decimal(seconds_of_micros(e)))],
        None => Seq::empty(),
    };
    let c: Seq<(Seq<char>, Seq<char>)> = match offset {
        Some(o) => seq![("ofs"@, decimal(o as nat))],
        None => Seq::empty(),
    };
    a + b + c
}

/// Options of a trade-history or closed-orders query.
#[derive(Debug, Clone, Copy, Default)]
pub struct HistoryOptions {
    /// Microseconds since the Unix epoch (UTC)
    pub start: Option<i64>,
    /// Microseconds since the Unix epoch (UTC)
    pub end: Option<i64>,
    pub offset: Option<u32>,
}

/// Whole seconds of a time in microseconds, rounded down.
fn whole_seconds(t: i64) -> (s: i64)
    ensures
        s == seconds_of_micros(t),
{
    if t >= 0 {
        t / 1_000_000
    } else {
        let m: i128 = -(t as i128);
        let q: i128 = (m + 999_999) / 1_000_000;
        proof {
            assert(q == -((t as int) / 1_000_000)) by (nonlinear_arith)
                requires
                    m == -(t as int),
                    m > 0,
                    q == (m + 999_999) / 1_000_000,
            ;
        }
        -(q as i64)
    }
}

/// The parameters of a history query.
pub fn history_params(opts: &HistoryOptions) -> (r: Vec<(String, String)>)
    ensures
        pair_texts(r@) == history_params_of(opts.start, opts.end, opts.offset),
{
    let mut params: Vec<(String, String)> = Vec::new();
    if let Some(s) = opts.start {
        params.push(("start".to_string(), i64_to_decimal(whole_seconds(s))));
    }
    let ghost a = pair_texts(params@);
    if let Some(e) = opts.end {
        params.push(("end".to_string(), i64_to_decimal(whole_seconds(e))));
    }
    let ghost b = pair_texts(params@);
    assert(b =~= a + match opts.end {
        Some(e) => seq![("end"@, signed_decimal(seconds_of_micros(e)))],
        None => Seq::<(Seq<char>, Seq<char>)>::empty(),
    });
    if let Some(o) = opts.offset {
        params.push(("ofs".to_string(), u64_to_decimal(o as u64)));
    }
    assert(pair_texts(params@) =~= b + match opts.offset {
        Some(o) => seq![("ofs"@, decimal(o as nat))],
        None => Seq::<(Seq<char>, Seq<char>)>::empty(),
    });
    assert(a =~= match opts.start {
        Some(s) => seq![("start"@, signed_decimal(seconds_of_micros(s)))],
        None => Seq::<(Seq<char>, Seq<char>)>::empty(),
    });
    params
}

/// The balance of an asset from the `Balance` endpoint: all of it
/// available, none held; an `InvalidDataType` error when the amount is not a
/// decimal.
pub fn balance_entry(asset: &str, amount: &str) -> (r: Result<AssetBalance, SdkError>)
    ensures
        match dec_parse(amount@) {
            Some(d) => r matches Ok(b) && b.asset@ == asset@ && b.balance == d && b.available == d && b.hold
                == dec_of_int(0),
            None => r matches Err(SdkError::Parse(ParseError::InvalidDataType(m))) && m@.len() >= 17
                && m@.take(17) == "Invalid balance: "@,
        },
{
    match decimal_from_str(amount) {
        Ok(d) => Ok(AssetBalance { asset: asset.to_string(), balance: d, available: d, hold: dec_from_i64(0) }),
        Err(reason) => {
            proof {
                reveal_strlit("Invalid balance: ");
            }
            let mut m = "Invalid balance: ".to_string();
            let ghost head = m@;
            m.append(reason.as_str());
            assert(m@.take(17) =~= head);
            Err(SdkError::Parse(ParseError::InvalidDataType(m)))
        },
    }
}

/// The decimal of an optional text, zero when missing or not a decimal.
pub open spec fn amount_or_zero(t: Option<Seq<char>>) -> Decimal {
    match t {
        Some(x) => match dec_parse(x) {
            Some(d) => d,
            None => dec_of_int(0),
        },
        None => dec_of_int(0),
    }
}

/// The balance of an asset from the `BalanceEx` endpoint: the balance and
/// the amount held in trades (each zero when missing or unreadable), and
/// the balance less the hold available; `None` where that difference
/// overflows.
pub fn extended_balance_entry(asset: &str, balance: Option<&str>, hold: Option<&str>) -> (r: Option<AssetBalance>)
    ensures
        match dec_sub(amount_or_zero(opt_view(balance)), amount_or_zero(opt_view(hold))) {
            Some(a) => r matches Some(b) && b.asset@ == asset@ && b.balance == amount_or_zero(opt_view(balance))
                && b.hold == amount_or_zero(opt_view(hold)) && b.available == a,
            None => r is None,
        },
{
    let b = amount(balance);
    let h = amount(hold);
    match checked_sub(&b, &h) {
        Some(a) => Some(AssetBalance { asset: asset.to_string(), balance: b, available: a, hold: h }),
        None => None,
    }
}

/// The view of an optional text.
pub open spec fn opt_view(t: Option<&str>) -> Option<Seq<char>> {
    match t {
        Some(x) => Some(x@),
        None => None,
    }
}

/// The decimal of an optional text, zero when missing or not a decimal.
fn amount(t: Option<&str>) -> (d: Decimal)
    ensures
        d == amount_or_zero(opt_view(t)),
{
    match t {
        Some(x) => match decimal_from_str(x) {
            Ok(d) => d,
            Err(_) => dec_from_i64(0),
        },
        None => dec_from_i64(0),
    }
}

/// The member `key` of a value, `Null` when there is none (`value[key]`).
pub open spec fn member_or_null(v: JsonValue, key: Seq<char>) -> JsonValue {
    match field(v, key) {
        Some(x) => x,
        None => JsonValue::Null,
    }
}

/// The text at a member, or a default.
pub open spec fn text_or(v: JsonValue, key: Seq<char>, default: Seq<char>) -> Seq<char> {
    match text_at(v, key) {
        Some(t) => t,
        None => default,
    }
}

/// `Buy` when the member `type` is `buy`, `Sell` otherwise.
pub open spec fn side_at(v: JsonValue) -> OrderSide {
    if text_at(v, "type"@) == Some("buy"@) {
        OrderSide::Buy
    } else {
        OrderSide::Sell
    }
}

/// Whether an order was read from its id, its data and its times.
pub open spec fn order_read(o: Order, txid: Seq<char>, data: JsonValue, opentm: i64, closetm: Option<i64>) -> bool {
    let descr = member_or_null(data, "descr"@);
    &&& o.txid@ == txid
    &&& o.status == status_named(text_or(data, "status"@, "open"@))
    &&& o.pair@ == text_or(descr, "pair"@, Seq::empty())
    &&& o.side == side_at(descr)
    &&& o.order_type == order_type_named(text_or(descr, "ordertype"@, "limit"@))
    &&& o.volume == decimal_at(data, "vol"@)
    &&& o.volume_exec == decimal_at(data, "vol_exec"@)
    &&& o.price == optional_decimal_at(descr, "price"@)
    &&& o.avg_price == optional_decimal_at(data, "price"@)
    &&& o.opentm == opentm
    &&& o.closetm == closetm
    &&& (o.client_order_id is Some <==> text_at(data, "cl_ord_id"@) is Some)
    &&& (o.client_order_id matches Some(c) ==> text_at(data, "cl_ord_id"@) == Some(c@))
}

/// The text at a member, or a default.
fn text_or_default(v: &JsonValue, key: &str, default: &str) -> (t: String)
    ensures
        t@ == text_or(*v, key@, default@),
{
    match opt_text(v.get(key)) {
        Some(t) => t.to_string(),
        None => default.to_string(),
    }
}

/// An order of the REST API from its id and data; its open and close times
/// are given in microseconds.
pub fn order_from_json(txid: &str, data: &JsonValue, opentm: i64, closetm: Option<i64>) -> (o: Order)
    ensures
        order_read(o, txid@, *data, opentm, closetm),
{
    let null = JsonValue::Null;
    let descr = match data.get("descr") {
        Some(d) => d,
        None => &null,
    };
    let status_text = text_or_default(data, "status", "open");
    let type_text = text_or_default(descr, "ordertype", "limit");
    let client_order_id = match opt_text(data.get("cl_ord_id")) {
        Some(t) => Some(t.to_string()),
        None => None,
    };
    Order {
        txid: txid.to_string(),
        status: parse_order_status(status_text.as_str()),
        pair: text_or_empty(descr, "pair"),
        side: if is_text(descr.get("type"), "buy") {
            OrderSide::Buy
        } else {
            OrderSide::Sell
        },
        order_type: parse_order_type(type_text.as_str()),
        volume: decimal_field(data, "vol"),
        volume_exec: decimal_field(data, "vol_exec"),
        price: optional_decimal_field(descr, "price"),
        avg_price: optional_decimal_field(data, "price"),
        opentm,
        closetm,
        client_order_id,
    }
}

/// Whether an execution was read from its trade id, its data and its time.
/// The fee currency is read from the member `fee`, `USD` when it is missing.
pub open spec fn rest_execution_read(e: Execution, trade_id: Seq<char>, data: JsonValue, time: i64) -> bool {
    &&& e.trade_id@ == trade_id
    &&& e.order_txid@ == text_or(data, "ordertxid"@, Seq::empty())
    &&& e.pair@ == text_or(data, "pair"@, Seq::empty())
    &&& e.side == side_at(data)
    &&& e.order_type == order_type_named(text_or(data, "ordertype"@, "market"@))
    &&& e.price == decimal_at(data, "price"@)
    &&& e.volume == decimal_at(data, "vol"@)
    &&& e.cost == decimal_at(data, "cost"@)
    &&& e.fee == decimal_at(data, "fee"@)
    &&& e.fee_currency@ == text_or(data, "fee"@, "USD"@)
    &&& e.time == time
}

/// An execution of the REST API from its trade id and data; its time is
/// given in microseconds.
pub fn execution_from_json(trade_id: &str, data: &JsonValue, time: i64) -> (e: Execution)
    ensures
        rest_execution_read(e, trade_id@, *data, time),
{
    let type_text = text_or_default(data, "ordertype", "market");
    Execution {
        trade_id: trade_id.to_string(),
        order_txid: text_or_empty(data, "ordertxid"),
        pair: text_or_empty(data, "pair"),
        side: if is_text(data.get("type"), "buy") {
            OrderSide::Buy
        } else {
            OrderSide::Sell
        },
        order_type: parse_order_type(type_text.as_str()),
        price: decimal_field(data, "price"),
        volume: decimal_field(data, "vol"),
        cost: decimal_field(data, "cost"),
        fee: decimal_field(data, "fee"),
        fee_currency: text_or_default(data, "fee", "USD"),
        time,
    }
}

/// `vol.max(one)`: the volume when it is more than one, else one.
pub open spec fn at_least(vol: Decimal, one: Decimal) -> Decimal {
    if units(vol) > units(one) {
        vol
    } else {
        one
    }
}

/// Whether a position's prices can be computed: cost and value divide by
/// the volume (at least one) without overflow.
pub open spec fn position_divisible(data: JsonValue) -> bool {
    let d = at_least(decimal_at(data, "vol"@), dec_of_int(1));
    dec_div(decimal_at(data, "cost"@), d) is Some && dec_div(decimal_at(data, "value"@), d) is Some
}

/// Whether a position was read from its id, its data and its open time:
/// the entry price is the cost per unit of volume and the mark price the
/// value per unit, the volume counted as at least one.
pub open spec fn position_read(p: Position, pos_id: Seq<char>, data: JsonValue, open_time: i64) -> bool {
    let d = at_least(decimal_at(data, "vol"@), dec_of_int(1));
    &&& p.position_id@ == pos_id
    &&& p.pair@ == text_or(data, "pair"@, Seq::empty())
    &&& p.side == side_at(data)
    &&& p.volume == decimal_at(data, "vol"@)
    &&& Some(p.entry_price) == dec_div(decimal_at(data, "cost"@), d)
    &&& Some(p.mark_price) == dec_div(decimal_at(data, "value"@), d)
    &&& p.unrealized_pnl == decimal_at(data, "net"@)
    &&& p.realized_pnl == dec_of_int(0)
    &&& p.liquidation_price is None
    &&& p.open_time == open_time
}

/// A position of the REST API, or `None` where a price division overflows.
pub fn try_position_from_json(pos_id: &str, data: &JsonValue, open_time: i64) -> (r: Option<Position>)
    ensures
        r is Some <==> position_divisible(*data),
        r matches Some(p) ==> position_read(p, pos_id@, *data, open_time),
{
    let volume = decimal_field(data, "vol");
    let one = dec_from_i64(1);
    let divisor = if dec_lt(&one, &volume) {
        volume
    } else {
        one
    };
    let cost = decimal_field(data, "cost");
    let value = decimal_field(data, "value");
    let entry_price = match checked_div(&cost, &divisor) {
        Some(q) => q,
        None => return None,
    };
    let mark_price = match checked_div(&value, &divisor) {
        Some(q) => q,
        None => return None,
    };
    Some(Position {
        position_id: pos_id.to_string(),
        pair: text_or_empty(data, "pair"),
        side: if is_text(data.get("type"), "buy") {
            OrderSide::Buy
        } else {
            OrderSide::Sell
        },
        volume,
        entry_price,
        mark_price,
        unrealized_pnl: decimal_field(data, "net"),
        realized_pnl: dec_from_i64(0),
        liquidation_price: None,
        open_time,
    })
}

/// A position of the REST API from its id and data; its open time is given
/// in microseconds.
pub fn position_from_json(pos_id: &str, data: &JsonValue, open_time: i64) -> (p: Position)
    requires
        position_divisible(*data),
    ensures
        position_read(p, pos_id@, *data, open_time),
{
    try_position_from_json(pos_id, data, open_time).unwrap()
}

/// Options of a trades history query.
pub type TradesHistoryOptions = HistoryOptions;

/// Options of a closed orders query.
pub type ClosedOrdersOptions = HistoryOptions;

/// Executions newest first: the same executions, reordered so that times
/// never increase; executions of equal time keep their order.
pub fn newest_first(v: Vec<Execution>) -> (r: Vec<Execution>)
    ensures
        r@.to_multiset() == v@.to_multiset(),
        forall|i: int, j: int| 0 <= i < j < r@.len() ==> r@[i].time >= r@[j].time,
{
    let ghost orig = v@;
    let mut rest = v;
    let mut out: Vec<Execution> = Vec::new();
    let ghost mut k: int = 0;
    proof {
        assert(orig.take(0) =~= Seq::<Execution>::empty());
        assert(out@ =~= Seq::<Execution>::empty());
    }
    while rest.len() > 0
        invariant
            0 <= k <= orig.len(),
            rest@ == orig.subrange(k, orig.len() as int),
            out@.to_multiset() == orig.take(k).to_multiset(),
            forall|i: int, j: int| 0 <= i < j < out@.len() ==> out@[i].time >= out@[j].time,
        decreases rest@.len(),
    {
        let ghost rest_before = rest@;
        let e = rest.remove(0);
        assert(e == orig[k]);
        let mut p: usize = 0;
        while p < out.len() && out[p].time >= e.time
            invariant
                p <= out@.len(),
                forall|i: int| 0 <= i < p ==> out@[i].time >= e.time,
            decreases out@.len() - p,
        {
            p = p + 1;
        }
        let ghost before = out@;
        out.insert(p, e);
        proof {
            assert(orig.take(k + 1) =~= orig.take(k).push(e));
            vstd::seq_lib::to_multiset_build(orig.take(k), e);
            assert(out@ =~= before.insert(p as int, e));
            vstd::seq_lib::to_multiset_insert(before, p as int, e);
            assert(rest@ =~= orig.subrange(k + 1, orig.len() as int));
            assert forall|i: int, j: int| 0 <= i < j < out@.len() implies out@[i].time >= out@[j].time by {
                if j < p {
                } else if j == p {
                } else if i < p {
                    if p < before.len() {
                        assert(before[p as int].time < e.time);
                    }
                } else if i == p {
                    assert(before[p as int].time < e.time);
                    assert(before[p as int].time >= before[j - 1].time || j - 1 == p);
                }
            }
            k = k + 1;
        }
    }
    proof {
        assert(orig.take(k) =~= orig);
    }
    out
}

} // verus!
