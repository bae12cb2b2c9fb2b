//! Trading types and order management: order requests with their builders
//! and their Kraken API parameters, order and position bookkeeping.

use crate::decimal::{
    checked_div, checked_mul, checked_sub, dec_div, dec_from_i64, dec_is_zero, dec_lt, dec_mantissa, dec_mul, dec_of_int,
    dec_sub, dec_text, to_text, units,
};
use rust_decimal::Decimal;
use vstd::prelude::*;

verus! {

broadcast use vstd::string::group_string_axioms;

/// Order side (buy or sell).
#[derive(Debug, Clone, Copy, PartialEq, Eq, Structural)]
pub enum OrderSide {
    Buy,
    Sell,
}

/// The API name of a side.
pub open spec fn side_name(s: OrderSide) -> Seq<char> {
    match s {
        OrderSide::Buy => "buy"@,
        OrderSide::Sell => "sell"@,
    }
}

impl OrderSide {
    /// The API name: `buy` or `sell`.
    pub fn text(&self) -> (t: String)
        ensures
            t@ == side_name(*self),
    {
        proof {
            reveal_strlit("buy");
            reveal_strlit("sell");
        }
        match self {
            OrderSide::Buy => "buy".to_string(),
            OrderSide::Sell => "sell".to_string(),
        }
    }
}

/// Order type.
#[derive(Debug, Clone, Copy, PartialEq, Eq, Structural)]
pub enum OrderType {
    Market,
    Limit,
    StopLoss,
    TakeProfit,
    StopLossLimit,
    TakeProfitLimit,
    SettlePosition,
}

/// The API name of an order type.
pub open spec fn order_type_name(t: OrderType) -> Seq<char> {
    match t {
        OrderType::Market => "market"@,
        OrderType::Limit => "limit"@,
        OrderType::StopLoss => "stop-loss"@,
        OrderType::TakeProfit => "take-profit"@,
        OrderType::StopLossLimit => "stop-loss-limit"@,
        OrderType::TakeProfitLimit => "take-profit-limit"@,
        OrderType::SettlePosition => "settle-position"@,
    }
}

impl OrderType {
    /// The API name, in kebab case.
    pub fn text(&self) -> (t: String)
        ensures
            t@ == order_type_name(*self),
    {
        proof {
            reveal_strlit("market");
            reveal_strlit("limit");
            reveal_strlit("stop-loss");
            reveal_strlit("take-profit");
            reveal_strlit("stop-loss-limit");
            reveal_strlit("take-profit-limit");
            reveal_strlit("settle-position");
        }
        match self {
            OrderType::Market => "market".to_string(),
            OrderType::Limit => "limit".to_string(),
            OrderType::StopLoss => "stop-loss".to_string(),
            OrderType::TakeProfit => "take-profit".to_string(),
            OrderType::StopLossLimit => "stop-loss-limit".to_string(),
            OrderType::TakeProfitLimit => "take-profit-limit".to_string(),
            OrderType::SettlePosition => "settle-position".to_string(),
        }
    }
}

/// Time in force for orders.
#[derive(Debug, Clone, Copy, PartialEq, Eq, Structural)]
pub enum TimeInForce {
    /// Good till cancelled (default)
    GTC,
    /// Immediate or cancel
    IOC,
    /// Good till date
    GTD,
}

impl Default for TimeInForce {
    fn default() -> (t: Self)
        ensures
            t == TimeInForce::GTC,
    {
        TimeInForce::GTC
    }
}

/// Order flags.
#[derive(Debug, Clone, Copy, PartialEq, Eq, Structural)]
pub struct OrderFlags {
    /// Post-only order (maker only)
    pub post_only: bool,
    /// Fee in quote currency
    pub fee_in_quote: bool,
    /// No market price protection
    pub no_mpp: bool,
    /// Reduce only (futures)
    pub reduce_only: bool,
}

/// No flag set.
pub open spec fn no_flags() -> OrderFlags {
    OrderFlags { post_only: false, fee_in_quote: false, no_mpp: false, reduce_only: false }
}

impl Default for OrderFlags {
    fn default() -> (f: Self)
        ensures
            f == no_flags(),
    {
        OrderFlags { post_only: false, fee_in_quote: false, no_mpp: false, reduce_only: false }
    }
}

/// Request to place a new order.
#[derive(Debug, Clone)]
pub struct OrderRequest {
    /// Trading pair (e.g., "XBT/USD")
    pub pair: String,
    /// Buy or sell
    pub side: OrderSide,
    /// Order type
    pub order_type: OrderType,
    /// Order volume in base currency
    pub volume: Decimal,
    /// Limit price (required for limit orders)
    pub price: Option<Decimal>,
    /// Secondary price (for stop-loss-limit, take-profit-limit)
    pub price2: Option<Decimal>,
    /// Time in force
    pub time_in_force: TimeInForce,
    /// Order flags
    pub flags: OrderFlags,
    /// Client order ID (optional, for tracking)
    pub client_order_id: Option<String>,
    /// Validate only (don't submit)
    pub validate: bool,
}

/// Whether a request is a fresh order: good till cancelled, no flags, no
/// client id, not validate-only, no secondary price.
pub open spec fn fresh_order(o: OrderRequest, pair: Seq<char>, side: OrderSide, t: OrderType, volume: Decimal, price: Option<Decimal>) -> bool {
    &&& o.pair@ == pair
    &&& o.side == side
    &&& o.order_type == t
    &&& o.volume == volume
    &&& o.price == price
    &&& o.price2 is None
    &&& o.time_in_force == TimeInForce::GTC
    &&& o.flags == no_flags()
    &&& o.client_order_id is None
    &&& !o.validate
}

impl OrderRequest {
    fn fresh(pair: &str, side: OrderSide, order_type: OrderType, volume: Decimal, price: Option<Decimal>) -> (o: Self)
        ensures
            fresh_order(o, pair@, side, order_type, volume, price),
    {
        OrderRequest {
            pair: pair.to_string(),
            side,
            order_type,
            volume,
            price,
            price2: None,
            time_in_force: TimeInForce::default(),
            flags: OrderFlags::default(),
            client_order_id: None,
            validate: false,
        }
    }

    /// A market buy order.
    pub fn market_buy(pair: &str, volume: Decimal) -> (o: Self)
        ensures
            fresh_order(o, pair@, OrderSide::Buy, OrderType::Market, volume, None),
    {
        Self::fresh(pair, OrderSide::Buy, OrderType::Market, volume, None)
    }

    /// A market sell order.
    pub fn market_sell(pair: &str, volume: Decimal) -> (o: Self)
        ensures
            fresh_order(o, pair@, OrderSide::Sell, OrderType::Market, volume, None),
    {
        Self::fresh(pair, OrderSide::Sell, OrderType::Market, volume, None)
    }

    /// A limit buy order.
    pub fn limit_buy(pair: &str, volume: Decimal, price: Decimal) -> (o: Self)
        ensures
            fresh_order(o, pair@, OrderSide::Buy, OrderType::Limit, volume, Some(price)),
    {
        Self::fresh(pair, OrderSide::Buy, OrderType::Limit, volume, Some(price))
    }

    /// A limit sell order.
    pub fn limit_sell(pair: &str, volume: Decimal, price: Decimal) -> (o: Self)
        ensures
            fresh_order(o, pair@, OrderSide::Sell, OrderType::Limit, volume, Some(price)),
    {
        Self::fresh(pair, OrderSide::Sell, OrderType::Limit, volume, Some(price))
    }

    /// The order with the given time in force.
    pub fn with_time_in_force(self, tif: TimeInForce) -> (o: Self)
        ensures
            o == (OrderRequest { time_in_force: tif, ..self }),
    {
        let mut this = self;
        this.time_in_force = tif;
        this
    }

    /// The order as post-only (maker only).
    pub fn post_only(self) -> (o: Self)
        ensures
            o == (OrderRequest { flags: OrderFlags { post_only: true, ..self.flags }, ..self }),
    {
        let mut this = self;
        this.flags.post_only = true;
        this
    }

    /// The order as reduce-only.
    pub fn reduce_only(self) -> (o: Self)
        ensures
            o == (OrderRequest { flags: OrderFlags { reduce_only: true, ..self.flags }, ..self }),
    {
        let mut this = self;
        this.flags.reduce_only = true;
        this
    }

    /// The order with a client order id.
    pub fn with_client_id(self, id: &str) -> (o: Self)
        ensures
            o.client_order_id matches Some(c) && c@ == id@,
            o == (OrderRequest { client_order_id: o.client_order_id, ..self }),
    {
        let mut this = self;
        this.client_order_id = Some(id.to_string());
        this
    }

    /// The order as validate-only (not submitted).
    pub fn validate_only(self) -> (o: Self)
        ensures
            o == (OrderRequest { validate: true, ..self }),
    {
        let mut this = self;
        this.validate = true;
        this
    }

    /// The Kraken API parameters of the order, in order: pair, type,
    /// ordertype, volume, then price, price2, timeinforce (for IOC and GTD),
    /// oflags (the set flags joined by commas), cl_ord_id and validate when
    /// they apply.
    pub fn to_params(&self) -> (r: Vec<(String, String)>)
        ensures
            param_texts(r@) == order_params(*self),
    {
        let mut params: Vec<(String, String)> = Vec::new();
        params.push(("pair".to_string(), self.pair.clone()));
        params.push(("type".to_string(), self.side.text()));
        params.push(("ordertype".to_string(), self.order_type.text()));
        params.push(("volume".to_string(), to_text(&self.volume)));
        assert(param_texts(params@) =~= seq![
            ("pair"@, self.pair@),
            ("type"@, side_name(self.side)),
            ("ordertype"@, order_type_name(self.order_type)),
            ("volume"@, dec_text(self.volume)),
        ]);
        push_opt(&mut params, "price", opt_decimal_text(&self.price));
        push_opt(&mut params, "price2", opt_decimal_text(&self.price2));
        let tif = match self.time_in_force {
            TimeInForce::IOC => Some("IOC".to_string()),
            TimeInForce::GTD => Some("GTD".to_string()),
            TimeInForce::GTC => None,
        };
        push_opt(&mut params, "timeinforce", tif);
        let flags = flags_text(&self.flags);
        proof {
            lemma_flags_text_empty(self.flags);
        }
        let oflags = if flags.unicode_len() > 0 { Some(flags) } else { None };
        push_opt(&mut params, "oflags", oflags);
        push_opt(&mut params, "cl_ord_id", self.client_order_id.clone());
        let validate = if self.validate { Some("true".to_string()) } else { None };
        push_opt(&mut params, "validate", validate);
        params
    }
}

/// The names of the set flags.
pub open spec fn flag_names(f: OrderFlags) -> Seq<Seq<char>> {
    let a = if f.post_only { seq!["post"@] } else { Seq::empty() };
    let b = if f.fee_in_quote { seq!["fciq"@] } else { Seq::empty() };
    let c = if f.no_mpp { seq!["nompp"@] } else { Seq::empty() };
    let d = if f.reduce_only { seq!["reduceonly"@] } else { Seq::empty() };
    a + b + c + d
}

/// Names joined by commas.
pub open spec fn joined(names: Seq<Seq<char>>) -> Seq<char>
    decreases names.len(),
{
    if names.len() == 0 {
        Seq::empty()
    } else if names.len() == 1 {
        names[0]
    } else {
        joined(names.drop_last()) + ","@ + names.last()
    }
}

/// A parameter that is present when its value is.
pub open spec fn opt_param(key: Seq<char>, value: Option<Seq<char>>) -> Seq<(Seq<char>, Seq<char>)> {
    match value {
        Some(v) => seq![(key, v)],
        None => Seq::empty(),
    }
}

/// The text of an optional decimal.
pub open spec fn opt_dec_text(d: Option<Decimal>) -> Option<Seq<char>> {
    match d {
        Some(v) => Some(dec_text(v)),
        None => None,
    }
}

/// The text of an optional string.
pub open spec fn opt_text(s: Option<String>) -> Option<Seq<char>> {
    match s {
        Some(v) => Some(v@),
        None => None,
    }
}

/// The `timeinforce` value: sent for IOC and GTD only.
pub open spec fn tif_text(t: TimeInForce) -> Option<Seq<char>> {
    match t {
        TimeInForce::IOC => Some("IOC"@),
        TimeInForce::GTD => Some("GTD"@),
        TimeInForce::GTC => None,
    }
}

/// The `oflags` value: sent when a flag is set.
pub open spec fn flags_value(f: OrderFlags) -> Option<Seq<char>> {
    if flag_names(f).len() > 0 {
        Some(joined(flag_names(f)))
    } else {
        None
    }
}

/// The API parameters of an order, as (key, value) texts.
pub open spec fn order_params(o: OrderRequest) -> Seq<(Seq<char>, Seq<char>)> {
    seq![
        ("pair"@, o.pair@),
        ("type"@, side_name(o.side)),
        ("ordertype"@, order_type_name(o.order_type)),
        ("volume"@, dec_text(o.volume)),
    ]
        + opt_param("price"@, opt_dec_text(o.price))
        + opt_param("price2"@, opt_dec_text(o.price2))
        + opt_param("timeinforce"@, tif_text(o.time_in_force))
        + opt_param("oflags"@, flags_value(o.flags))
        + opt_param("cl_ord_id"@, opt_text(o.client_order_id))
        + opt_param("validate"@, if o.validate { Some("true"@) } else { None })
}

/// The keys of parameters.
pub open spec fn param_keys(ps: Seq<(Seq<char>, Seq<char>)>) -> Seq<Seq<char>> {
    ps.map_values(|p: (Seq<char>, Seq<char>)| p.0)
}

/// The time in force an order is sent with: an IOC order carries the
/// parameter `("timeinforce", "IOC")`, a GTD order `("timeinforce", "GTD")`,
/// and a GTC order, the exchange's default, no `timeinforce` parameter at
/// all.
pub proof fn law_time_in_force_param(o: OrderRequest)
    ensures
        o.time_in_force == TimeInForce::IOC ==> order_params(o).contains(("timeinforce"@, "IOC"@)),
        o.time_in_force == TimeInForce::GTD ==> order_params(o).contains(("timeinforce"@, "GTD"@)),
        o.time_in_force == TimeInForce::GTC ==> !param_keys(order_params(o)).contains("timeinforce"@),
{
    reveal_strlit("pair");
    reveal_strlit("type");
    reveal_strlit("ordertype");
    reveal_strlit("volume");
    reveal_strlit("price");
    reveal_strlit("price2");
    reveal_strlit("timeinforce");
    reveal_strlit("oflags");
    reveal_strlit("cl_ord_id");
    reveal_strlit("validate");
    let head = seq![
        ("pair"@, o.pair@),
        ("type"@, side_name(o.side)),
        ("ordertype"@, order_type_name(o.order_type)),
        ("volume"@, dec_text(o.volume)),
    ];
    let pre = head + opt_param("price"@, opt_dec_text(o.price)) + opt_param("price2"@, opt_dec_text(o.price2));
    let t = opt_param("timeinforce"@, tif_text(o.time_in_force));
    let post = opt_param("oflags"@, flags_value(o.flags)) + opt_param("cl_ord_id"@, opt_text(o.client_order_id))
        + opt_param("validate"@, if o.validate { Some("true"@) } else { None });
    let ps = order_params(o);
    assert(ps =~= pre + t + post);
    if o.time_in_force != TimeInForce::GTC {
        let k = pre.len() as int;
        assert(ps[k] == t[0]);
    } else {
        assert(t.len() == 0);
        assert forall|i: int| 0 <= i < ps.len() implies #[trigger] ps[i].0 != "timeinforce"@ by {
            if i < pre.len() {
                assert(ps[i] == pre[i]);
                assert(pre[i].0.len() != "timeinforce"@.len());
            } else {
                assert(ps[i] == post[i - pre.len()]);
                assert(post[i - pre.len()].0.len() != "timeinforce"@.len());
            }
        }
        assert(!param_keys(ps).contains("timeinforce"@)) by {
            if param_keys(ps).contains("timeinforce"@) {
                let j = choose|j: int| 0 <= j < param_keys(ps).len() && param_keys(ps)[j] == "timeinforce"@;
                assert(param_keys(ps)[j] == ps[j].0);
            }
        }
    }
}

/// Orders that differ only in their time in force are sent with different
/// parameters.
pub proof fn law_time_in_force_distinguishes(o: OrderRequest, other: OrderRequest)
    requires
        other.pair@ == o.pair@,
        other.side == o.side,
        other.order_type == o.order_type,
        other.volume == o.volume,
        other.price == o.price,
        other.price2 == o.price2,
        other.flags == o.flags,
        opt_text(other.client_order_id) == opt_text(o.client_order_id),
        other.validate == o.validate,
        other.time_in_force != o.time_in_force,
    ensures
        order_params(o) != order_params(other),
{
    law_time_in_force_param(o);
    law_time_in_force_param(other);
    reveal_strlit("IOC");
    reveal_strlit("GTD");
    if order_params(o) == order_params(other) {
        if o.time_in_force != TimeInForce::GTC && other.time_in_force != TimeInForce::GTC {
            let pre = opt_param("price"@, opt_dec_text(o.price)) + opt_param("price2"@, opt_dec_text(o.price2));
            let k: int = 4 + pre.len() as int;
            assert(order_params(o)[k] == ("timeinforce"@, tif_text(o.time_in_force)->0));
            assert(order_params(other)[k] == ("timeinforce"@, tif_text(other.time_in_force)->0));
            assert("IOC"@[0] != "GTD"@[0]);
        } else {
            let (g, n) = if o.time_in_force == TimeInForce::GTC { (o, other) } else { (other, o) };
            let ps = order_params(n);
            let pair = ("timeinforce"@, tif_text(n.time_in_force)->0);
            assert(ps.contains(pair));
            let j = choose|j: int| 0 <= j < ps.len() && ps[j] == pair;
            assert(param_keys(order_params(g))[j] == "timeinforce"@);
        }
    }
}

/// Appends a key-value pair when the value is present.
fn push_opt(params: &mut Vec<(String, String)>, key: &str, value: Option<String>)
    ensures
        param_texts(final(params)@) == param_texts(old(params)@) + opt_param(key@, opt_text(value)),
{
    match value {
        Some(v) => {
            params.push((key.to_string(), v));
            assert(param_texts(params@) =~= param_texts(old(params)@) + opt_param(key@, opt_text(value)));
        },
        None => {
            assert(param_texts(params@) =~= param_texts(old(params)@) + opt_param(key@, opt_text(value)));
        },
    }
}

/// The text of an optional decimal.
fn opt_decimal_text(d: &Option<Decimal>) -> (r: Option<String>)
    ensures
        opt_text(r) == opt_dec_text(*d),
{
    match d {
        Some(v) => Some(to_text(v)),
        None => None,
    }
}

/// Key-value pairs as texts.
pub open spec fn param_texts(v: Seq<(String, String)>) -> Seq<(Seq<char>, Seq<char>)> {
    v.map_values(|p: (String, String)| (p.0@, p.1@))
}

proof fn lemma_flags_text_empty(f: OrderFlags)
    ensures
        joined(flag_names(f)).len() == 0 <==> flag_names(f).len() == 0,
{
    reveal_strlit("post");
    reveal_strlit("fciq");
    reveal_strlit("nompp");
    reveal_strlit("reduceonly");
    reveal_strlit(",");
    let n = flag_names(f);
    if n.len() == 1 {
        assert(n[0].len() > 0);
    }
}

/// The set flags joined by commas.
fn flags_text(f: &OrderFlags) -> (t: String)
    ensures
        t@ == joined(flag_names(*f)),
{
    proof {
        reveal_strlit("post");
        reveal_strlit("fciq");
        reveal_strlit("nompp");
        reveal_strlit("reduceonly");
        reveal_strlit(",");
    }
    let mut names: Vec<&str> = Vec::new();
    if f.post_only {
        names.push("post");
    }
    if f.fee_in_quote {
        names.push("fciq");
    }
    if f.no_mpp {
        names.push("nompp");
    }
    if f.reduce_only {
        names.push("reduceonly");
    }
    let ghost all = names@.map_values(|s: &str| s@);
    assert(all =~= flag_names(*f));
    let mut out = String::new();
    let mut i: usize = 0;
    while i < names.len()
        invariant
            i <= names@.len(),
            all == names@.map_values(|s: &str| s@),
            out@ == joined(all.take(i as int)),
        decreases names@.len() - i,
    {
        assert(all.take(i + 1).drop_last() =~= all.take(i as int));
        if i > 0 {
            out.append(",");
        }
        out.append(names[i]);
        proof {
            if i == 0 {
                assert(all.take(1) =~= seq![all[0]]);
            }
        }
        i = i + 1;
    }
    assert(all.take(names@.len() as int) =~= all);
    out
}

/// Response from placing an order.
#[derive(Debug, Clone)]
pub struct OrderResponse {
    /// Transaction IDs of the order(s)
    pub txid: Vec<String>,
    /// Order description
    pub descr: OrderDescription,
}

/// Order description from Kraken.
#[derive(Debug, Clone)]
pub struct OrderDescription {
    /// Order description string
    pub order: String,
    /// Close order description (if applicable)
    pub close: Option<String>,
}

/// Order status.
#[derive(Debug, Clone, Copy, PartialEq, Eq, Structural)]
pub enum OrderStatus {
    Pending,
    Open,
    Closed,
    Canceled,
    Expired,
}

/// Full order information.
#[derive(Debug, Clone)]
pub struct Order {
    /// Order transaction ID
    pub txid: String,
    /// Order status
    pub status: OrderStatus,
    /// Trading pair
    pub pair: String,
    /// Order side
    pub side: OrderSide,
    /// Order type
    pub order_type: OrderType,
    /// Original volume
    pub volume: Decimal,
    /// Executed volume
    pub volume_exec: Decimal,
    /// Limit price
    pub price: Option<Decimal>,
    /// Average execution price
    pub avg_price: Option<Decimal>,
    /// Order creation time, microseconds since the Unix epoch (UTC)
    pub opentm: i64,
    /// Order close time (if closed)
    pub closetm: Option<i64>,
    /// Client order ID
    pub client_order_id: Option<String>,
}

/// `part / whole × 100`, zero for a zero whole; `None` on overflow.
pub open spec fn percent(part: Decimal, whole: Decimal) -> Option<Decimal> {
    if dec_mantissa(whole) == 0 {
        Some(dec_of_int(0))
    } else {
        match dec_div(part, whole) {
            Some(q) => dec_mul(q, dec_of_int(100)),
            None => None,
        }
    }
}

/// Computes `percent`.
fn percent_of(part: &Decimal, whole: &Decimal) -> (r: Option<Decimal>)
    ensures
        r == percent(*part, *whole),
{
    if dec_is_zero(whole) {
        Some(dec_from_i64(0))
    } else {
        match checked_div(part, whole) {
            Some(q) => checked_mul(&q, &dec_from_i64(100)),
            None => None,
        }
    }
}

impl Order {
    /// Whether the executed volume has reached the order volume.
    pub fn is_filled(&self) -> (b: bool)
        ensures
            b == (units(self.volume_exec) >= units(self.volume)),
    {
        !dec_lt(&self.volume_exec, &self.volume)
    }

    /// Whether the order is pending or open.
    pub fn is_active(&self) -> (b: bool)
        ensures
            b == (self.status == OrderStatus::Pending || self.status == OrderStatus::Open),
    {
        match self.status {
            OrderStatus::Pending | OrderStatus::Open => true,
            _ => false,
        }
    }

    /// The volume not yet executed.
    pub fn remaining_volume(&self) -> (r: Decimal)
        requires
            dec_sub(self.volume, self.volume_exec) is Some,
        ensures
            Some(r) == dec_sub(self.volume, self.volume_exec),
    {
        checked_sub(&self.volume, &self.volume_exec).unwrap()
    }

    /// The volume not yet executed, `None` on overflow.
    pub fn try_remaining_volume(&self) -> (r: Option<Decimal>)
        ensures
            r == dec_sub(self.volume, self.volume_exec),
    {
        if checked_sub(&self.volume, &self.volume_exec).is_some() {
            Some(self.remaining_volume())
        } else {
            None
        }
    }

    /// The executed share of the volume, in percent (zero for a zero volume).
    pub fn fill_percent(&self) -> (r: Decimal)
        requires
            percent(self.volume_exec, self.volume) is Some,
        ensures
            Some(r) == percent(self.volume_exec, self.volume),
    {
        percent_of(&self.volume_exec, &self.volume).unwrap()
    }

    /// The executed share of the volume, `None` on overflow.
    pub fn try_fill_percent(&self) -> (r: Option<Decimal>)
        ensures
            r == percent(self.volume_exec, self.volume),
    {
        if percent_of(&self.volume_exec, &self.volume).is_some() {
            Some(self.fill_percent())
        } else {
            None
        }
    }
}

/// Execution report (trade/fill).
#[derive(Debug, Clone)]
pub struct Execution {
    pub trade_id: String,
    pub order_txid: String,
    pub pair: String,
    pub side: OrderSide,
    pub order_type: OrderType,
    pub price: Decimal,
    pub volume: Decimal,
    /// Trade cost (price × volume)
    pub cost: Decimal,
    pub fee: Decimal,
    pub fee_currency: String,
    /// Microseconds since the Unix epoch (UTC)
    pub time: i64,
}

/// Request to cancel an order.
#[derive(Debug, Clone)]
pub struct CancelRequest {
    /// Transaction ID to cancel
    pub txid: String,
}

impl CancelRequest {
    pub fn new(txid: &str) -> (r: Self)
        ensures
            r.txid@ == txid@,
    {
        CancelRequest { txid: txid.to_string() }
    }
}

/// Response from canceling an order.
#[derive(Debug, Clone, Copy)]
pub struct CancelResponse {
    /// Number of orders canceled
    pub count: u32,
    /// Whether order was pending (not yet in book)
    pub pending: Option<bool>,
}

/// Request to edit an existing order.
#[derive(Debug, Clone)]
pub struct EditOrderRequest {
    pub txid: String,
    pub volume: Option<Decimal>,
    pub price: Option<Decimal>,
    pub price2: Option<Decimal>,
}

impl EditOrderRequest {
    pub fn new(txid: &str) -> (r: Self)
        ensures
            r.txid@ == txid@,
            r.volume is None,
            r.price is None,
            r.price2 is None,
    {
        EditOrderRequest { txid: txid.to_string(), volume: None, price: None, price2: None }
    }

    pub fn with_volume(self, volume: Decimal) -> (r: Self)
        ensures
            r == (EditOrderRequest { volume: Some(volume), ..self }),
    {
        let mut this = self;
        this.volume = Some(volume);
        this
    }

    pub fn with_price(self, price: Decimal) -> (r: Self)
        ensures
            r == (EditOrderRequest { price: Some(price), ..self }),
    {
        let mut this = self;
        this.price = Some(price);
        this
    }
}

/// Account balance for a single asset.
#[derive(Debug, Clone)]
pub struct AssetBalance {
    pub asset: String,
    /// Total balance
    pub balance: Decimal,
    /// Available balance (not in orders)
    pub available: Decimal,
    /// Balance held in orders
    pub hold: Decimal,
}

/// Account balances by asset.
#[derive(Debug)]
pub struct Balances {
    assets: Vec<(String, AssetBalance)>,
}

impl Balances {
    /// The balances, by asset name, each name once.
    pub closed spec fn entries(&self) -> Seq<(Seq<char>, AssetBalance)> {
        self.assets@.map_values(|e: (String, AssetBalance)| (e.0@, e.1))
    }

    /// The balance of an asset, if known.
    pub open spec fn balance_of(&self, asset: Seq<char>) -> Option<AssetBalance> {
        balance_in(self.entries(), asset)
    }

    /// No balances.
    pub fn new() -> (b: Self)
        ensures
            b.entries().len() == 0,
    {
        let b = Balances { assets: Vec::new() };
        assert(b.entries().len() == 0);
        b
    }

    /// Sets the balance of an asset.
    pub fn insert(&mut self, asset: &str, balance: AssetBalance)
        ensures
            final(self).balance_of(asset@) == Some(balance),
            forall|a: Seq<char>| a != asset@ ==> #[trigger] final(self).balance_of(a) == old(self).balance_of(a),
    {
        let ghost e0 = self.entries();
        let key = asset.to_string();
        let mut i: usize = 0;
        while i < self.assets.len()
            invariant
                i <= self.assets@.len(),
                key@ == asset@,
                e0 == self.entries(),
                e0 == old(self).entries(),
                forall|j: int| 0 <= j < i ==> #[trigger] e0[j].0 != asset@,
            decreases self.assets@.len() - i,
        {
            assert(e0[i as int].0 == self.assets@[i as int].0@);
            if self.assets[i].0 == key {
                self.assets.set(i, (key, balance));
                assert(self.entries() =~= e0.update(i as int, (asset@, balance)));
                proof {
                    lemma_balance_update(e0, asset@, balance, i as int);
                }
                return;
            }
            i = i + 1;
        }
        self.assets.push((key, balance));
        assert(self.entries() =~= e0.push((asset@, balance)));
        proof {
            lemma_balance_push(e0, asset@, balance);
        }
    }

    /// The balance of an asset.
    pub fn get(&self, asset: &str) -> (r: Option<&AssetBalance>)
        ensures
            match r {
                Some(b) => self.balance_of(asset@) == Some(*b),
                None => self.balance_of(asset@) is None,
            },
    {
        let key = asset.to_string();
        let mut i: usize = 0;
        assert(self.entries().skip(0) =~= self.entries());
        while i < self.assets.len()
            invariant
                i <= self.assets@.len(),
                key@ == asset@,
                balance_in(self.entries(), asset@) == balance_in(self.entries().skip(i as int), asset@),
            decreases self.assets@.len() - i,
        {
            let ghost rest = self.entries().skip(i as int);
            assert(rest.drop_first() =~= self.entries().skip(i + 1));
            assert(rest[0] == (self.assets@[i as int].0@, self.assets@[i as int].1));
            if self.assets[i].0 == key {
                return Some(&self.assets[i].1);
            }
            i = i + 1;
        }
        None
    }

    /// The available balance of an asset (zero when unknown).
    pub fn available(&self, asset: &str) -> (r: Decimal)
        ensures
            r == match self.balance_of(asset@) {
                Some(b) => b.available,
                None => dec_of_int(0),
            },
    {
        match self.get(asset) {
            Some(b) => b.available,
            None => dec_from_i64(0),
        }
    }

    /// The total balance of an asset (zero when unknown).
    pub fn total(&self, asset: &str) -> (r: Decimal)
        ensures
            r == match self.balance_of(asset@) {
                Some(b) => b.balance,
                None => dec_of_int(0),
            },
    {
        match self.get(asset) {
            Some(b) => b.balance,
            None => dec_from_i64(0),
        }
    }
}

impl Default for Balances {
    fn default() -> (b: Self)
        ensures
            b.entries().len() == 0,
    {
        Balances::new()
    }
}

/// The first balance filed under an asset name.
pub open spec fn balance_in(e: Seq<(Seq<char>, AssetBalance)>, asset: Seq<char>) -> Option<AssetBalance>
    decreases e.len(),
{
    if e.len() == 0 {
        None
    } else if e[0].0 == asset {
        Some(e[0].1)
    } else {
        balance_in(e.drop_first(), asset)
    }
}

proof fn lemma_balance_update(e: Seq<(Seq<char>, AssetBalance)>, asset: Seq<char>, b: AssetBalance, i: int)
    requires
        0 <= i < e.len(),
        e[i].0 == asset,
        forall|j: int| 0 <= j < i ==> #[trigger] e[j].0 != asset,
    ensures
        balance_in(e.update(i, (asset, b)), asset) == Some(b),
        forall|a: Seq<char>| a != asset ==> #[trigger] balance_in(e.update(i, (asset, b)), a) == balance_in(e, a),
    decreases i,
{
    let u = e.update(i, (asset, b));
    let t = e.drop_first();
    if i > 0 {
        assert(u.drop_first() =~= t.update(i - 1, (asset, b)));
        assert(u[0] == e[0]);
        assert(e[0].0 != asset);
        assert forall|j: int| 0 <= j < i - 1 implies #[trigger] t[j].0 != asset by {
            assert(t[j] == e[j + 1]);
        }
        assert(t[i - 1] == e[i]);
        lemma_balance_update(t, asset, b, i - 1);
        assert forall|a: Seq<char>| a != asset implies #[trigger] balance_in(u, a) == balance_in(e, a) by {
            assert(balance_in(t.update(i - 1, (asset, b)), a) == balance_in(t, a));
        }
    } else {
        assert(u[0] == (asset, b));
        assert forall|a: Seq<char>| a != asset implies #[trigger] balance_in(u, a) == balance_in(e, a) by {
            assert(u.drop_first() =~= t);
        }
    }
}

proof fn lemma_balance_push(e: Seq<(Seq<char>, AssetBalance)>, asset: Seq<char>, b: AssetBalance)
    requires
        forall|j: int| 0 <= j < e.len() ==> #[trigger] e[j].0 != asset,
    ensures
        balance_in(e.push((asset, b)), asset) == Some(b),
        forall|a: Seq<char>| a != asset ==> #[trigger] balance_in(e.push((asset, b)), a) == balance_in(e, a),
    decreases e.len(),
{
    let u = e.push((asset, b));
    if e.len() > 0 {
        let t = e.drop_first();
        assert(u.drop_first() =~= t.push((asset, b)));
        assert(u[0] == e[0]);
        assert(e[0].0 != asset);
        assert forall|j: int| 0 <= j < t.len() implies #[trigger] t[j].0 != asset by {
            assert(t[j] == e[j + 1]);
        }
        lemma_balance_push(t, asset, b);
        assert forall|a: Seq<char>| a != asset implies #[trigger] balance_in(u, a) == balance_in(e, a) by {
            assert(balance_in(t.push((asset, b)), a) == balance_in(t, a));
        }
    } else {
        assert(u[0] == (asset, b));
        assert forall|a: Seq<char>| a != asset implies #[trigger] balance_in(u, a) == balance_in(e, a) by {
            assert(u.drop_first() =~= Seq::<(Seq<char>, AssetBalance)>::empty());
            assert(balance_in(u.drop_first(), a) is None);
        }
    }
}

/// Open position.
#[derive(Debug, Clone)]
pub struct Position {
    pub position_id: String,
    pub pair: String,
    /// Position side (long = buy, short = sell)
    pub side: OrderSide,
    pub volume: Decimal,
    /// Average entry price
    pub entry_price: Decimal,
    /// Current mark price
    pub mark_price: Decimal,
    pub unrealized_pnl: Decimal,
    pub realized_pnl: Decimal,
    pub liquidation_price: Option<Decimal>,
    /// Microseconds since the Unix epoch (UTC)
    pub open_time: i64,
}

/// The P&L of a position in percent of its entry price (mark minus entry
/// for a long, entry minus mark for a short); zero for a zero entry price,
/// `None` on overflow.
pub open spec fn pnl_percent_of(p: Position) -> Option<Decimal> {
    if dec_mantissa(p.entry_price) == 0 {
        Some(dec_of_int(0))
    } else {
        let pnl = match p.side {
            OrderSide::Buy => dec_sub(p.mark_price, p.entry_price),
            OrderSide::Sell => dec_sub(p.entry_price, p.mark_price),
        };
        match pnl {
            Some(x) => percent(x, p.entry_price),
            None => None,
        }
    }
}

impl Position {
    fn pnl_percent_checked(&self) -> (r: Option<Decimal>)
        ensures
            r == pnl_percent_of(*self),
    {
        if dec_is_zero(&self.entry_price) {
            return Some(dec_from_i64(0));
        }
        let pnl = match self.side {
            OrderSide::Buy => checked_sub(&self.mark_price, &self.entry_price),
            OrderSide::Sell => checked_sub(&self.entry_price, &self.mark_price),
        };
        match pnl {
            Some(x) => percent_of(&x, &self.entry_price),
            None => None,
        }
    }

    /// The P&L in percent of the entry price.
    pub fn pnl_percent(&self) -> (r: Decimal)
        requires
            pnl_percent_of(*self) is Some,
        ensures
            Some(r) == pnl_percent_of(*self),
    {
        self.pnl_percent_checked().unwrap()
    }

    /// The P&L in percent of the entry price, `None` on overflow.
    pub fn try_pnl_percent(&self) -> (r: Option<Decimal>)
        ensures
            r == pnl_percent_of(*self),
    {
        if self.pnl_percent_checked().is_some() {
            Some(self.pnl_percent())
        } else {
            None
        }
    }

    /// Whether the unrealized P&L is positive.
    pub fn is_profitable(&self) -> (b: bool)
        ensures
            b == (units(self.unrealized_pnl) > 0),
    {
        let zero = dec_from_i64(0);
        proof {
            assert(units(zero) == 0);
        }
        dec_lt(&zero, &self.unrealized_pnl)
    }
}

} // verus!
