//! Kraken message parsing: reading ticker, order book, trade and OHLC
//! messages out of their JSON form, and routing messages by kind.
//!
//! JSON text is read into a [`JsonValue`] by `serde_json`; this module
//! decides what the values mean.

use crate::clock::utc_now_micros;
use crate::data::{OHLCData, OrderBookUpdate, PriceLevel, TickerData, TradeData, TradeSide};
use crate::decimal::{dec_from_i64, dec_of_int, dec_parse, parse_decimal};
use crate::error::{ParseError, ProcessingError};
use crate::middleware::new_request_id;
use crate::text::{contains, contains_text, replace_all, replaced, trim_ws, trimmed};
use chrono::DateTime;
use rust_decimal::Decimal;
use vstd::prelude::*;

verus! {

broadcast use vstd::string::group_string_axioms;

/// A JSON value.
#[derive(Debug)]
pub enum JsonValue {
    Null,
    Bool(bool),
    /// A number, as written
    Number(String),
    Str(String),
    Array(Vec<JsonValue>),
    /// An object's members, in order, each key once
    Object(Vec<(String, JsonValue)>),
}

/// The items of an array value.
pub open spec fn as_array(v: JsonValue) -> Option<Seq<JsonValue>> {
    match v {
        JsonValue::Array(a) => Some(a@),
        _ => None,
    }
}

/// The text of a string value.
pub open spec fn as_text(v: JsonValue) -> Option<Seq<char>> {
    match v {
        JsonValue::Str(s) => Some(s@),
        _ => None,
    }
}

/// Whether the value is an object.
pub open spec fn is_object(v: JsonValue) -> bool {
    v is Object
}

/// The value of the first member named `key`.
pub open spec fn member(fields: Seq<(String, JsonValue)>, key: Seq<char>) -> Option<JsonValue>
    decreases fields.len(),
{
    if fields.len() == 0 {
        None
    } else if fields[0].0@ == key {
        Some(fields[0].1)
    } else {
        member(fields.drop_first(), key)
    }
}

/// The member `key` of an object value.
pub open spec fn field(v: JsonValue, key: Seq<char>) -> Option<JsonValue> {
    match v {
        JsonValue::Object(f) => member(f@, key),
        _ => None,
    }
}

impl JsonValue {
    /// The member `key` of an object.
    pub fn get(&self, key: &str) -> (r: Option<&JsonValue>)
        ensures
            match r {
                Some(x) => field(*self, key@) == Some(*x),
                None => field(*self, key@) is None,
            },
    {
        match self {
            JsonValue::Object(fields) => {
                assert(field(*self, key@) == member(fields@, key@));
                let k = key.to_string();
                let mut i: usize = 0;
                assert(fields@.skip(0) =~= fields@);
                while i < fields.len()
                    invariant
                        i <= fields@.len(),
                        k@ == key@,
                        field(*self, key@) == member(fields@, key@),
                        member(fields@, key@) == member(fields@.skip(i as int), key@),
                    decreases fields@.len() - i,
                {
                    assert(fields@.skip(i as int).drop_first() =~= fields@.skip(i + 1));
                    assert(fields@.skip(i as int)[0] == fields@[i as int]);
                    if fields[i].0 == k {
                        assert(member(fields@.skip(i as int), key@) == Some(fields@[i as int].1));
                        return Some(&fields[i].1);
                    }
                    i = i + 1;
                }
                None
            },
            _ => None,
        }
    }

    /// The items of an array.
    pub fn as_array(&self) -> (r: Option<&Vec<JsonValue>>)
        ensures
            match r {
                Some(a) => as_array(*self) == Some(a@),
                None => as_array(*self) is None,
            },
    {
        match self {
            JsonValue::Array(a) => Some(a),
            _ => None,
        }
    }

    /// The text of a string.
    pub fn as_str(&self) -> (r: Option<&str>)
        ensures
            match r {
                Some(s) => as_text(*self) == Some(s@),
                None => as_text(*self) is None,
            },
    {
        match self {
            JsonValue::Str(s) => Some(s.as_str()),
            _ => None,
        }
    }

    /// Whether the value is an object.
    pub fn is_object(&self) -> (b: bool)
        ensures
            b == is_object(*self),
    {
        match self {
            JsonValue::Object(_) => true,
            _ => false,
        }
    }
}

// ---------------------------------------------------------------------------
// Reading numbers and times
// ---------------------------------------------------------------------------

/// Whether a character is an ASCII digit.
pub open spec fn is_digit(c: char) -> bool {
    '0' <= c <= '9'
}

/// Whether every character is an ASCII digit.
pub open spec fn all_digits(s: Seq<char>) -> bool {
    forall|i: int| 0 <= i < s.len() ==> is_digit(#[trigger] s[i])
}

/// The value of a string of digits.
pub open spec fn digits_value(s: Seq<char>) -> int
    decreases s.len(),
{
    if s.len() == 0 {
        0
    } else {
        digits_value(s.drop_last()) * 10 + (s.last() as int - '0' as int)
    }
}

/// The position of the first `.`, or the length when there is none.
pub open spec fn dot_pos(s: Seq<char>) -> int
    decreases s.len(),
{
    if s.len() == 0 {
        0
    } else if s[0] == '.' {
        0
    } else {
        1 + dot_pos(s.drop_first())
    }
}

/// An integer cut into the range of `i64`.
pub open spec fn clamp_i64(v: int) -> i64 {
    if v > i64::MAX {
        i64::MAX
    } else if v < i64::MIN {
        i64::MIN
    } else {
        v as i64
    }
}

/// The whole seconds of a timestamp written as an optionally signed decimal
/// number (`1700000000.123456`): its integer part, truncated toward zero and
/// cut into the range of `i64`; 0 for text that is not such a number.
pub open spec fn secs_of(t: Seq<char>) -> i64 {
    let signed = t.len() > 0 && (t[0] == '-' || t[0] == '+');
    let neg = t.len() > 0 && t[0] == '-';
    let body = if signed { t.drop_first() } else { t };
    let d = dot_pos(body);
    let ip = body.take(d);
    let fp = if d < body.len() { body.skip(d + 1) } else { Seq::<char>::empty() };
    if all_digits(ip) && all_digits(fp) && ip.len() + fp.len() > 0 {
        clamp_i64(if neg { -digits_value(ip) } else { digits_value(ip) })
    } else {
        0
    }
}

proof fn lemma_dot_pos(s: Seq<char>, k: int)
    requires
        0 <= k <= s.len(),
        forall|j: int| 0 <= j < k ==> is_digit(#[trigger] s[j]),
    ensures
        dot_pos(s) >= k,
        dot_pos(s) <= s.len(),
        k < s.len() && s[k] == '.' ==> dot_pos(s) == k,
    decreases k,
{
    if k > 0 {
        let t = s.drop_first();
        assert forall|j: int| 0 <= j < k - 1 implies is_digit(#[trigger] t[j]) by {
            assert(t[j] == s[j + 1]);
        }
        lemma_dot_pos(t, k - 1);
        if k < s.len() {
            assert(t[k - 1] == s[k]);
        }
    } else {
        lemma_dot_pos_le(s);
    }
}

proof fn lemma_dot_pos_le(s: Seq<char>)
    ensures
        0 <= dot_pos(s) <= s.len(),
        dot_pos(s) < s.len() ==> s[dot_pos(s)] == '.',
    decreases s.len(),
{
    if s.len() > 0 && s[0] != '.' {
        lemma_dot_pos_le(s.drop_first());
        if dot_pos(s) < s.len() {
            assert(s.drop_first()[dot_pos(s) - 1] == s[dot_pos(s)]);
        }
    }
}

proof fn lemma_digits_nonneg(s: Seq<char>)
    requires
        all_digits(s),
    ensures
        digits_value(s) >= 0,
    decreases s.len(),
{
    if s.len() > 0 {
        assert(is_digit(s[s.len() - 1]));
        assert(all_digits(s.drop_last()));
        lemma_digits_nonneg(s.drop_last());
    }
}

/// Reads the whole seconds of a timestamp text (see [`secs_of`]).
pub fn seconds_of(text: &str) -> (r: i64)
    ensures
        r == secs_of(text@),
{
    let ghost t = text@;
    let n = text.unicode_len();
    let mut i: usize = 0;
    let mut neg = false;
    if n > 0 {
        let c0 = text.get_char(0);
        if c0 == '-' || c0 == '+' {
            neg = c0 == '-';
            i = 1;
        }
    }
    let start = i;
    let ghost body = if start == 1 { t.drop_first() } else { t };
    assert(body =~= t.skip(start as int));
    let cap: u128 = 0x8000_0000_0000_0000;
    let mut acc: u128 = 0;
    while i < n && is_ascii_digit(text.get_char(i))
        invariant
            n == t.len(),
            start <= i <= n,
            text@ == t,
            body == t.skip(start as int),
            forall|j: int| 0 <= j < i - start ==> is_digit(#[trigger] body[j]),
            acc == (if digits_value(body.take(i - start)) < cap { digits_value(body.take(i - start)) } else { cap as int }),
            cap == 0x8000_0000_0000_0000u128,
        decreases n - i,
    {
        let c = text.get_char(i);
        let ghost k = (i - start) as int;
        assert(body.take(k + 1).drop_last() =~= body.take(k));
        assert(body[k] == c);
        proof {
            assert(all_digits(body.take(k)));
            lemma_digits_nonneg(body.take(k));
        }
        let d = (c as u32 - '0' as u32) as u128;
        let next = acc * 10 + d;
        acc = if next < cap { next } else { cap };
        i = i + 1;
    }
    let int_end = i;
    let ghost k = (int_end - start) as int;
    proof {
        lemma_dot_pos(body, k);
    }
    let ghost d = dot_pos(body);
    let ghost ip = body.take(d);
    let ghost fp = if d < body.len() { body.skip(d + 1) } else { Seq::<char>::empty() };
    let mut frac_digits: usize = 0;
    if i < n {
        let c = text.get_char(i);
        if c == '.' {
            assert(body[k] == t[int_end as int]);
            assert(d == k);
            i = i + 1;
            while i < n && is_ascii_digit(text.get_char(i))
                invariant
                    n == t.len(),
                    int_end + 1 <= i <= n,
                    text@ == t,
                    frac_digits == i - int_end - 1,
                    forall|j: int| int_end + 1 <= j < i ==> is_digit(#[trigger] t[j]),
                decreases n - i,
            {
                i = i + 1;
                frac_digits = frac_digits + 1;
            }
            if i < n {
                proof {
                    assert(fp[i - int_end - 1] == t[i as int]);
                    assert(!all_digits(fp));
                }
                return 0;
            }
        } else {
            proof {
                assert(body[k] == t[int_end as int]);
                assert(!is_digit(body[k]));
                assert(d > k) by {
                    lemma_dot_pos_le(body);
                    lemma_dot_pos(body, k);
                }
                assert(ip[k] == body[k]);
                assert(!all_digits(ip));
            }
            return 0;
        }
    }
    if (int_end - start) + frac_digits == 0 {
        proof {
            if d == k {
                if d < body.len() {
                    assert(fp.len() == frac_digits);
                }
            }
        }
        return 0;
    }
    proof {
        if d == k {
            assert forall|j: int| 0 <= j < fp.len() implies is_digit(#[trigger] fp[j]) by {
                assert(fp[j] == t[start + d + 1 + j]);
            }
        } else {
            assert(k == body.len());
        }
        assert(ip =~= body.take(k));
        lemma_digits_nonneg(ip);
    }
    if neg {
        if acc >= cap {
            i64::MIN
        } else {
            -(acc as i64)
        }
    } else {
        if acc >= cap {
            i64::MAX
        } else {
            acc as i64
        }
    }
}

/// Whether a character is an ASCII digit.
fn is_ascii_digit(c: char) -> (b: bool)
    ensures
        b == is_digit(c),
{
    '0' <= c && c <= '9'
}

/// What `DateTime::from_timestamp(secs, 0)` followed by
/// `DateTime::timestamp_micros` gives: `None` outside the dates chrono represents.
pub uninterp spec fn utc_secs_micros(secs: i64) -> Option<i64>;

/// The microseconds of a whole second since the epoch, when chrono can
/// represent that date (`DateTime::from_timestamp` then `timestamp_micros`).
#[verifier::external_body]
pub fn micros_from_secs(secs: i64) -> (r: Option<i64>)
    ensures
        r == utc_secs_micros(secs),
        r matches Some(m) ==> m == secs * 1_000_000,
{
    match DateTime::from_timestamp(secs, 0) {
        Some(d) => Some(d.timestamp_micros()),
        None => None,
    }
}

// ---------------------------------------------------------------------------
// Reading Kraken messages
// ---------------------------------------------------------------------------

/// The text of a value if it is a string, else `"0"`.
pub open spec fn text_or_zero(v: JsonValue) -> Seq<char> {
    match as_text(v) {
        Some(t) => t,
        None => "0"@,
    }
}

/// The decimal written in a text, zero when it is not one.
pub open spec fn dec_or_zero(t: Seq<char>) -> Decimal {
    match dec_parse(t) {
        Some(d) => d,
        None => dec_of_int(0),
    }
}

/// The decimal in the first string of the array member `key` of an object,
/// zero when there is none.
pub open spec fn first_decimal(obj: JsonValue, key: Seq<char>) -> Decimal {
    match field(obj, key) {
        Some(f) => match as_array(f) {
            Some(a) => if a.len() > 0 {
                match as_text(a[0]) {
                    Some(t) => dec_or_zero(t),
                    None => dec_of_int(0),
                }
            } else {
                dec_of_int(0)
            },
            None => dec_of_int(0),
        },
        None => dec_of_int(0),
    }
}

/// Kraken's pair name in display form (`XBT/USD` is `BTC/USD`).
pub open spec fn display_symbol(s: Seq<char>) -> Seq<char> {
    if s == "XBT/USD"@ {
        "BTC/USD"@
    } else {
        s
    }
}

/// Whether `r` is the malformed-message error with the given text.
pub open spec fn malformed<T>(r: Result<T, ParseError>, text: Seq<char>) -> bool {
    r matches Err(ParseError::MalformedMessage(m)) && m@ == text
}

/// Whether `r` is the missing-symbol error.
pub open spec fn missing_symbol<T>(r: Result<T, ParseError>) -> bool {
    r matches Err(ParseError::MissingField(m)) && m@ == "symbol"@
}

/// The four parts of a Kraken channel message: `[channelID, data, channelName, pair]`.
pub open spec fn message_parts(json: JsonValue) -> Option<Seq<JsonValue>> {
    match as_array(json) {
        Some(a) => if a.len() >= 4 { Some(a) } else { None },
        None => None,
    }
}

/// The time of a level or trade: the whole seconds of its text, when chrono
/// represents them.
pub open spec fn time_of(v: JsonValue) -> Option<i64> {
    utc_secs_micros(secs_of(text_or_zero(v)))
}

/// Whether a level was read from an array entry `[price, volume, time, ...]`.
pub open spec fn level_read(l: PriceLevel, item: Seq<JsonValue>) -> bool {
    &&& l.price == dec_or_zero(text_or_zero(item[0]))
    &&& l.volume == dec_or_zero(text_or_zero(item[1]))
    &&& time_of(item[2]) matches Some(m) ==> l.timestamp == m
}

/// The entries of a level list that are arrays of at least three values.
pub open spec fn level_items(items: Seq<JsonValue>) -> Seq<Seq<JsonValue>>
    decreases items.len(),
{
    if items.len() == 0 {
        Seq::empty()
    } else {
        let rest = level_items(items.drop_last());
        match as_array(items.last()) {
            Some(a) => if a.len() >= 3 { rest.push(a) } else { rest },
            None => rest,
        }
    }
}

/// The levels of the array member `key` of an object (none when it is absent).
pub open spec fn side_items(obj: JsonValue, key: Seq<char>) -> Seq<Seq<JsonValue>> {
    match field(obj, key) {
        Some(f) => match as_array(f) {
            Some(a) => level_items(a),
            None => Seq::empty(),
        },
        None => Seq::empty(),
    }
}

/// Whether levels were read from their entries, one each, in order.
pub open spec fn levels_read(v: Seq<PriceLevel>, items: Seq<Seq<JsonValue>>) -> bool {
    &&& v.len() == items.len()
    &&& forall|i: int| 0 <= i < v.len() ==> level_read(#[trigger] v[i], items[i])
}

/// An ASCII letter in lower case; other characters unchanged.
pub open spec fn ascii_lower(c: char) -> char {
    if 'A' <= c <= 'Z' {
        ((c as u32) + 32) as char
    } else {
        c
    }
}

/// The trade side a text names: `b`/`buy` or `s`/`sell`, in any case.
pub open spec fn side_of(t: Seq<char>) -> Option<TradeSide> {
    let l = t.map_values(|c: char| ascii_lower(c));
    if l == "b"@ || l == "buy"@ {
        Some(TradeSide::Buy)
    } else if l == "s"@ || l == "sell"@ {
        Some(TradeSide::Sell)
    } else {
        None
    }
}

/// The decimal of a text (zero when it is not one).
pub fn decimal_or_zero(t: &str) -> (d: Decimal)
    ensures
        d == dec_or_zero(t@),
{
    match parse_decimal(t) {
        Some(d) => d,
        None => dec_from_i64(0),
    }
}

/// The text of a value, or `"0"`.
fn str_or_zero(v: &JsonValue) -> (t: &str)
    ensures
        t@ == text_or_zero(*v),
{
    match v.as_str() {
        Some(t) => t,
        None => {
            proof {
                reveal_strlit("0");
            }
            "0"
        },
    }
}

/// The time of a value: its whole seconds since the epoch in microseconds,
/// or the current time when chrono cannot represent them.
fn time_or_now(v: &JsonValue) -> (t: i64)
    ensures
        time_of(*v) matches Some(m) ==> t == m,
{
    match micros_from_secs(seconds_of(str_or_zero(v))) {
        Some(m) => m,
        None => utc_now_micros(),
    }
}

/// The decimal in the first string of the array member `key`, zero when there is none.
fn first_decimal_of(obj: &JsonValue, key: &str) -> (d: Decimal)
    ensures
        d == first_decimal(*obj, key@),
{
    match obj.get(key) {
        Some(f) => match f.as_array() {
            Some(a) => {
                if a.len() > 0 {
                    match a[0].as_str() {
                        Some(t) => decimal_or_zero(t),
                        None => dec_from_i64(0),
                    }
                } else {
                    dec_from_i64(0)
                }
            },
            None => dec_from_i64(0),
        },
        None => dec_from_i64(0),
    }
}

/// Reads the levels of an array of `[price, volume, time, ...]` entries.
fn read_levels(items: &Vec<JsonValue>) -> (r: Vec<PriceLevel>)
    ensures
        levels_read(r@, level_items(items@)),
{
    let mut out: Vec<PriceLevel> = Vec::new();
    let mut i: usize = 0;
    while i < items.len()
        invariant
            i <= items@.len(),
            levels_read(out@, level_items(items@.take(i as int))),
        decreases items@.len() - i,
    {
        assert(items@.take(i + 1).drop_last() =~= items@.take(i as int));
        let ghost before = out@;
        match items[i].as_array() {
            Some(a) => {
                if a.len() >= 3 {
                    let price = decimal_or_zero(str_or_zero(&a[0]));
                    let volume = decimal_or_zero(str_or_zero(&a[1]));
                    let timestamp = time_or_now(&a[2]);
                    out.push(PriceLevel { price, volume, timestamp });
                    assert(level_items(items@.take(i + 1)) == level_items(items@.take(i as int)).push(a@));
                    assert forall|j: int| 0 <= j < out@.len() implies level_read(#[trigger] out@[j], level_items(items@.take(i + 1))[j]) by {
                        if j < before.len() {
                            assert(out@[j] == before[j]);
                        }
                    }
                }
            },
            None => {},
        }
        i = i + 1;
    }
    assert(items@.take(items@.len() as int) =~= items@);
    out
}

/// Reads the levels of the array member `key` of an object.
fn side_levels(obj: &JsonValue, key: &str) -> (r: Vec<PriceLevel>)
    ensures
        levels_read(r@, side_items(*obj, key@)),
{
    match obj.get(key) {
        Some(f) => match f.as_array() {
            Some(a) => read_levels(a),
            None => Vec::new(),
        },
        None => Vec::new(),
    }
}

/// Whether the text, with ASCII letters in lower case, is `lit`.
fn lower_equals(t: &str, lit: &str) -> (b: bool)
    ensures
        b == (t@.map_values(|c: char| ascii_lower(c)) == lit@),
{
    let n = t.unicode_len();
    if n != lit.unicode_len() {
        assert(t@.map_values(|c: char| ascii_lower(c)).len() != lit@.len());
        return false;
    }
    let mut i: usize = 0;
    while i < n
        invariant
            n == t@.len(),
            n == lit@.len(),
            i <= n,
            forall|j: int| 0 <= j < i ==> ascii_lower(#[trigger] t@[j]) == lit@[j],
        decreases n - i,
    {
        let c = t.get_char(i);
        let l = if 'A' <= c && c <= 'Z' {
            ((c as u8) + 32) as char
        } else {
            c
        };
        assert(l == ascii_lower(c)) by {
            if 'A' <= c && c <= 'Z' {
                assert((c as u8) as u32 == c as u32);
            }
        }
        if l != lit.get_char(i) {
            assert(t@.map_values(|c: char| ascii_lower(c))[i as int] != lit@[i as int]);
            return false;
        }
        i = i + 1;
    }
    assert(t@.map_values(|c: char| ascii_lower(c)) =~= lit@);
    true
}

/// Reads a trade side: `b`/`buy` or `s`/`sell` in any case.
fn parse_trade_side(t: &str) -> (r: Result<TradeSide, ParseError>)
    ensures
        match side_of(t@) {
            Some(s) => r == Ok::<TradeSide, ParseError>(s),
            None => r matches Err(ParseError::InvalidDataType(m)) && m@ == "Invalid trade side: "@ + t@,
        },
{
    proof {
        reveal_strlit("b");
        reveal_strlit("buy");
        reveal_strlit("s");
        reveal_strlit("sell");
        reveal_strlit("Invalid trade side: ");
    }
    if lower_equals(t, "b") || lower_equals(t, "buy") {
        Ok(TradeSide::Buy)
    } else if lower_equals(t, "s") || lower_equals(t, "sell") {
        Ok(TradeSide::Sell)
    } else {
        let mut m = "Invalid trade side: ".to_string();
        m.append(t);
        Err(ParseError::InvalidDataType(m))
    }
}

/// Builds a parse error's text.
fn text_of(s: &str) -> (r: String)
    ensures
        r@ == s@,
{
    s.to_string()
}

/// Whether `r` is what a ticker message reads as.
pub open spec fn ticker_read(json: JsonValue, r: Result<TickerData, ParseError>) -> bool {
    match message_parts(json) {
        None => malformed(r, "Invalid ticker message format"@),
        Some(a) => match as_text(a[3]) {
            None => missing_symbol(r),
            Some(sym) => if is_object(a[1]) {
                r matches Ok(t) && t.symbol@ == display_symbol(sym) && t.bid == first_decimal(a[1], "b"@) && t.ask
                    == first_decimal(a[1], "a"@) && t.last_price == first_decimal(a[1], "c"@) && t.volume
                    == first_decimal(a[1], "v"@)
            } else {
                malformed(r, "Invalid ticker message format"@)
            },
        },
    }
}

/// Whether `r` is what an order book message reads as.
pub open spec fn orderbook_read(json: JsonValue, r: Result<OrderBookUpdate, ParseError>) -> bool {
    match message_parts(json) {
        None => malformed(r, "Invalid orderbook message format"@),
        Some(a) => match as_text(a[3]) {
            None => missing_symbol(r),
            Some(sym) => if is_object(a[1]) {
                r matches Ok(u) && u.symbol@ == sym && levels_read(u.bids@, side_items(a[1], "b"@)) && levels_read(
                    u.asks@,
                    side_items(a[1], "a"@),
                ) && u.checksum is None
            } else {
                malformed(r, "Invalid orderbook message format"@)
            },
        },
    }
}

/// The first trade entry of a trade message's data, when it has at least four values.
pub open spec fn first_trade(data: JsonValue) -> Option<Seq<JsonValue>> {
    match as_array(data) {
        Some(trades) => if trades.len() > 0 {
            match as_array(trades[0]) {
                Some(t) => if t.len() >= 4 { Some(t) } else { None },
                None => None,
            }
        } else {
            None
        },
        None => None,
    }
}

/// The side text of a trade entry (`b` when it is not a string).
pub open spec fn side_text(v: JsonValue) -> Seq<char> {
    match as_text(v) {
        Some(t) => t,
        None => "b"@,
    }
}

/// Whether `r` is what a trade message reads as.
pub open spec fn trade_read(json: JsonValue, r: Result<TradeData, ParseError>) -> bool {
    match message_parts(json) {
        None => malformed(r, "Invalid trade message format"@),
        Some(a) => match as_text(a[3]) {
            None => missing_symbol(r),
            Some(sym) => match first_trade(a[1]) {
                None => malformed(r, "Invalid trade message format"@),
                Some(t) => match side_of(side_text(t[3])) {
                    None => r matches Err(ParseError::InvalidDataType(m)) && m@ == "Invalid trade side: "@ + side_text(t[3]),
                    Some(side) => r matches Ok(d) && d.symbol@ == display_symbol(sym) && d.price == dec_or_zero(
                        text_or_zero(t[0]),
                    ) && d.volume == dec_or_zero(text_or_zero(t[1])) && d.side == side && (time_of(t[2]) matches Some(
                        m,
                    ) ==> d.timestamp == m),
                },
            },
        },
    }
}

/// The OHLC entry of a message's data, when it has at least eight values.
pub open spec fn ohlc_entry(data: JsonValue) -> Option<Seq<JsonValue>> {
    match as_array(data) {
        Some(o) => if o.len() >= 8 { Some(o) } else { None },
        None => None,
    }
}

/// Whether `r` is what an OHLC message reads as.
pub open spec fn ohlc_read(json: JsonValue, r: Result<OHLCData, ParseError>) -> bool {
    match message_parts(json) {
        None => malformed(r, "Invalid OHLC message format"@),
        Some(a) => match as_text(a[3]) {
            None => missing_symbol(r),
            Some(sym) => match ohlc_entry(a[1]) {
                None => malformed(r, "Invalid OHLC message format"@),
                Some(o) => r matches Ok(d) && d.symbol@ == sym && (time_of(o[0]) matches Some(m) ==> d.timestamp == m)
                    && d.open == dec_or_zero(text_or_zero(o[1])) && d.high == dec_or_zero(text_or_zero(o[2])) && d.low
                    == dec_or_zero(text_or_zero(o[3])) && d.close == dec_or_zero(text_or_zero(o[4])) && d.volume
                    == dec_or_zero(text_or_zero(o[6])) && d.interval@ == "1m"@,
            },
        },
    }
}

/// Kraken-specific data parser.
#[derive(Debug)]
pub struct KrakenDataParser {}

/// The display form of a Kraken pair name.
fn display_name(symbol: &str) -> (r: String)
    ensures
        r@ == display_symbol(symbol@),
{
    proof {
        reveal_strlit("XBT/USD");
        reveal_strlit("BTC/USD");
    }
    let s = symbol.to_string();
    if s == "XBT/USD".to_string() {
        "BTC/USD".to_string()
    } else {
        s
    }
}

impl KrakenDataParser {
    pub fn new() -> Self {
        KrakenDataParser {}
    }

    /// Reads a ticker message `[channelID, {b, a, c, v, ...}, channelName, pair]`:
    /// the first price of bid, ask and close and the first volume, each zero
    /// when absent or unreadable.
    pub fn parse_ticker(&self, json: &JsonValue) -> (r: Result<TickerData, ParseError>)
        ensures
            ticker_read(*json, r),
    {
        proof {
            reveal_strlit("Invalid ticker message format");
            reveal_strlit("symbol");
            reveal_strlit("b");
            reveal_strlit("a");
            reveal_strlit("c");
            reveal_strlit("v");
        }
        if let Some(array) = json.as_array() {
            if array.len() >= 4 {
                let symbol = match array[3].as_str() {
                    Some(s) => s,
                    None => return Err(ParseError::MissingField(text_of("symbol"))),
                };
                let obj = &array[1];
                if obj.is_object() {
                    let bid = first_decimal_of(obj, "b");
                    let ask = first_decimal_of(obj, "a");
                    let last_price = first_decimal_of(obj, "c");
                    let volume = first_decimal_of(obj, "v");
                    return Ok(
                        TickerData { symbol: display_name(symbol), bid, ask, last_price, volume, timestamp: utc_now_micros() },
                    );
                }
            }
        }
        Err(ParseError::MalformedMessage(text_of("Invalid ticker message format")))
    }

    /// Reads an order book message `[channelID, {b: [...], a: [...]}, channelName, pair]`:
    /// each level entry `[price, volume, time, ...]` with at least three values.
    pub fn parse_orderbook(&self, json: &JsonValue) -> (r: Result<OrderBookUpdate, ParseError>)
        ensures
            orderbook_read(*json, r),
    {
        proof {
            reveal_strlit("Invalid orderbook message format");
            reveal_strlit("symbol");
            reveal_strlit("b");
            reveal_strlit("a");
        }
        if let Some(array) = json.as_array() {
            if array.len() >= 4 {
                let symbol = match array[3].as_str() {
                    Some(s) => s,
                    None => return Err(ParseError::MissingField(text_of("symbol"))),
                };
                let obj = &array[1];
                if obj.is_object() {
                    let bids = side_levels(obj, "b");
                    let asks = side_levels(obj, "a");
                    return Ok(
                        OrderBookUpdate {
                            symbol: symbol.to_string(),
                            bids,
                            asks,
                            timestamp: utc_now_micros(),
                            checksum: None,
                        },
                    );
                }
            }
        }
        Err(ParseError::MalformedMessage(text_of("Invalid orderbook message format")))
    }

    /// Reads a trade message `[channelID, [[price, volume, time, side, ...]], channelName, pair]`
    /// from its first trade; the trade gets a fresh id.
    pub fn parse_trade(&self, json: &JsonValue) -> (r: Result<TradeData, ParseError>)
        ensures
            trade_read(*json, r),
    {
        proof {
            reveal_strlit("Invalid trade message format");
            reveal_strlit("symbol");
            reveal_strlit("b");
        }
        if let Some(array) = json.as_array() {
            if array.len() >= 4 {
                let symbol = match array[3].as_str() {
                    Some(s) => s,
                    None => return Err(ParseError::MissingField(text_of("symbol"))),
                };
                if let Some(trades) = array[1].as_array() {
                    if trades.len() > 0 {
                        if let Some(t) = trades[0].as_array() {
                            if t.len() >= 4 {
                                let price = decimal_or_zero(str_or_zero(&t[0]));
                                let volume = decimal_or_zero(str_or_zero(&t[1]));
                                let timestamp = time_or_now(&t[2]);
                                let side_str = match t[3].as_str() {
                                    Some(s) => s,
                                    None => "b",
                                };
                                let side = match parse_trade_side(side_str) {
                                    Ok(s) => s,
                                    Err(e) => return Err(e),
                                };
                                return Ok(
                                    TradeData {
                                        symbol: display_name(symbol),
                                        price,
                                        volume,
                                        side,
                                        timestamp,
                                        trade_id: new_request_id(),
                                    },
                                );
                            }
                        }
                    }
                }
            }
        }
        Err(ParseError::MalformedMessage(text_of("Invalid trade message format")))
    }

    /// Reads an OHLC message `[channelID, [time, open, high, low, close, vwap, volume, count], channelName, pair]`.
    pub fn parse_ohlc(&self, json: &JsonValue) -> (r: Result<OHLCData, ParseError>)
        ensures
            ohlc_read(*json, r),
    {
        proof {
            reveal_strlit("Invalid OHLC message format");
            reveal_strlit("symbol");
            reveal_strlit("1m");
        }
        if let Some(array) = json.as_array() {
            if array.len() >= 4 {
                let symbol = match array[3].as_str() {
                    Some(s) => s,
                    None => return Err(ParseError::MissingField(text_of("symbol"))),
                };
                if let Some(o) = array[1].as_array() {
                    if o.len() >= 8 {
                        let timestamp = time_or_now(&o[0]);
                        let open = decimal_or_zero(str_or_zero(&o[1]));
                        let high = decimal_or_zero(str_or_zero(&o[2]));
                        let low = decimal_or_zero(str_or_zero(&o[3]));
                        let close = decimal_or_zero(str_or_zero(&o[4]));
                        let volume = decimal_or_zero(str_or_zero(&o[6]));
                        return Ok(
                            OHLCData {
                                symbol: symbol.to_string(),
                                open,
                                high,
                                low,
                                close,
                                volume,
                                timestamp,
                                interval: text_of("1m"),
                            },
                        );
                    }
                }
            }
        }
        Err(ParseError::MalformedMessage(text_of("Invalid OHLC message format")))
    }
}

impl Default for KrakenDataParser {
    fn default() -> Self {
        KrakenDataParser::new()
    }
}

/// The text with surrounding white space trimmed and every newline,
/// carriage return and tab removed.
pub open spec fn cleaned(s: Seq<char>) -> Seq<char> {
    replaced(replaced(replaced(trimmed(s), "\n"@, ""@), "\r"@, ""@), "\t"@, ""@)
}

impl KrakenDataParser {
    /// Cleans up common JSON formatting issues: surrounding white space,
    /// newlines, carriage returns and tabs.
    pub fn clean_json_data(&self, data: &str) -> (r: String)
        ensures
            r@ == cleaned(data@),
    {
        proof {
            reveal_strlit("\n");
            reveal_strlit("\r");
            reveal_strlit("\t");
            reveal_strlit("");
        }
        let t = trim_ws(data);
        let a = replace_all(t, "\n", "");
        let b = replace_all(a.as_str(), "\r", "");
        replace_all(b.as_str(), "\t", "")
    }
}

#[verifier::external_type_specification]
#[verifier::external_body]
pub struct ExJsonTree(serde_json::Value);

/// The library's form of a `serde_json` value: each variant to its
/// counterpart, a number by its text, an object's members in the map's order.
/// It is recursive, so it stands apart from `parse_json_text`, its one caller.
#[verifier::external_body]
fn to_json_value(v: &serde_json::Value) -> JsonValue {
    match v {
        serde_json::Value::Null => JsonValue::Null,
        serde_json::Value::Bool(b) => JsonValue::Bool(*b),
        serde_json::Value::Number(n) => JsonValue::Number(n.to_string()),
        serde_json::Value::String(s) => JsonValue::Str(s.clone()),
        serde_json::Value::Array(items) => JsonValue::Array(items.iter().map(to_json_value).collect()),
        serde_json::Value::Object(map) => JsonValue::Object(map.iter().map(|(k, x)| (k.clone(), to_json_value(x))).collect()),
    }
}

/// The value JSON text parses to with `serde_json::from_str`, in the
/// library's form; `None` when the text is not JSON.
pub uninterp spec fn json_of(text: Seq<char>) -> Option<JsonValue>;

/// Parses JSON text with `serde_json::from_str` into a `serde_json::Value`
/// and gives it in the library's form; the value is named by `json_of`. On
/// text that is not JSON it gives the parser's error message, of which
/// nothing is stated.
#[verifier::external_body]
pub(crate) fn parse_json_text(text: &str) -> (r: Result<JsonValue, String>)
    ensures
        r is Ok ==> json_of(text@) == Some(r->Ok_0),
        r is Err ==> json_of(text@) is None,
{
    match serde_json::from_str::<serde_json::Value>(text) {
        Ok(v) => Ok(to_json_value(&v)),
        Err(e) => Err(e.to_string()),
    }
}

/// What message text reads as: its JSON value, else that of its cleaned form.
pub open spec fn robust_json(text: Seq<char>) -> Option<JsonValue> {
    match json_of(text) {
        Some(v) => Some(v),
        None => json_of(cleaned(text)),
    }
}

/// Whether `r` is the error for text that is not JSON even when cleaned.
pub open spec fn invalid_json<T>(r: Result<T, ParseError>) -> bool {
    r matches Err(ParseError::InvalidJson(m)) && "JSON parsing failed: "@.is_prefix_of(m@)
}

impl KrakenDataParser {
    /// Parses JSON text, trying once more on the cleaned text; the error
    /// carries the message of the first attempt.
    pub fn parse_json_robust(&self, text: &str) -> (r: Result<JsonValue, ParseError>)
        ensures
            json_of(text@) is Some ==> r == Ok::<JsonValue, ParseError>(json_of(text@)->0),
            json_of(text@) is None && json_of(cleaned(text@)) is Some ==> r == Ok::<JsonValue, ParseError>(
                json_of(cleaned(text@))->0,
            ),
            json_of(text@) is None && json_of(cleaned(text@)) is None ==> invalid_json(r),
    {
        proof {
            reveal_strlit("JSON parsing failed: ");
        }
        match parse_json_text(text) {
            Ok(v) => Ok(v),
            Err(first) => {
                let c = self.clean_json_data(text);
                match parse_json_text(c.as_str()) {
                    Ok(v) => Ok(v),
                    Err(_) => {
                        let mut m = "JSON parsing failed: ".to_string();
                        m.append(first.as_str());
                        assert(m@.subrange(0, "JSON parsing failed: "@.len() as int) =~= "JSON parsing failed: "@);
                        Err(ParseError::InvalidJson(m))
                    },
                }
            },
        }
    }

    /// Reads a ticker message from its text.
    pub fn parse_ticker_text(&self, data: &str) -> (r: Result<TickerData, ParseError>)
        ensures
            match robust_json(data@) {
                Some(j) => ticker_read(j, r),
                None => invalid_json(r),
            },
    {
        let json = match self.parse_json_robust(data) {
            Ok(j) => j,
            Err(e) => return Err(e),
        };
        self.parse_ticker(&json)
    }

    /// Reads an order book message from its text.
    pub fn parse_orderbook_text(&self, data: &str) -> (r: Result<OrderBookUpdate, ParseError>)
        ensures
            match robust_json(data@) {
                Some(j) => orderbook_read(j, r),
                None => invalid_json(r),
            },
    {
        let json = match self.parse_json_robust(data) {
            Ok(j) => j,
            Err(e) => return Err(e),
        };
        self.parse_orderbook(&json)
    }

    /// Reads a trade message from its text.
    pub fn parse_trade_text(&self, data: &str) -> (r: Result<TradeData, ParseError>)
        ensures
            match robust_json(data@) {
                Some(j) => trade_read(j, r),
                None => invalid_json(r),
            },
    {
        let json = match self.parse_json_robust(data) {
            Ok(j) => j,
            Err(e) => return Err(e),
        };
        self.parse_trade(&json)
    }

    /// Reads an OHLC message from its text.
    pub fn parse_ohlc_text(&self, data: &str) -> (r: Result<OHLCData, ParseError>)
        ensures
            match robust_json(data@) {
                Some(j) => ohlc_read(j, r),
                None => invalid_json(r),
            },
    {
        let json = match self.parse_json_robust(data) {
            Ok(j) => j,
            Err(e) => return Err(e),
        };
        self.parse_ohlc(&json)
    }

    /// The order book update a message carries: read only from a message
    /// whose text mentions a book, and `None` when it does not read.
    pub fn book_update(&self, message: &str) -> (r: Option<OrderBookUpdate>)
        ensures
            match r {
                Some(u) => contains(message@, "book"@) && robust_json(message@) is Some && orderbook_read(
                    robust_json(message@)->0,
                    Ok(u),
                ),
                None => !contains(message@, "book"@) || robust_json(message@) is None || !orderbook_accepts(
                    robust_json(message@)->0,
                ),
            },
    {
        proof {
            reveal_strlit("book");
        }
        if !contains_text(message, "book") {
            return None;
        }
        match self.parse_orderbook_text(message) {
            Ok(u) => Some(u),
            Err(_) => None,
        }
    }
}

/// Whether a message is a subscription status, system status or heartbeat message.
pub open spec fn is_status(m: Seq<char>) -> bool {
    contains(m, "subscriptionStatus"@) || contains(m, "systemStatus"@) || contains(m, "heartbeat"@)
}

/// Whether a ticker message reads successfully.
pub open spec fn ticker_accepts(json: JsonValue) -> bool {
    &&& message_parts(json) is Some
    &&& as_text(message_parts(json).unwrap()[3]) is Some
    &&& is_object(message_parts(json).unwrap()[1])
}

/// Whether an order book message reads successfully.
pub open spec fn orderbook_accepts(json: JsonValue) -> bool {
    &&& message_parts(json) is Some
    &&& as_text(message_parts(json).unwrap()[3]) is Some
    &&& is_object(message_parts(json).unwrap()[1])
}

/// Whether a trade message reads successfully.
pub open spec fn trade_accepts(json: JsonValue) -> bool {
    &&& message_parts(json) is Some
    &&& as_text(message_parts(json).unwrap()[3]) is Some
    &&& first_trade(message_parts(json).unwrap()[1]) is Some
    &&& side_of(side_text(first_trade(message_parts(json).unwrap()[1]).unwrap()[3])) is Some
}

/// Whether an OHLC message reads successfully.
pub open spec fn ohlc_accepts(json: JsonValue) -> bool {
    &&& message_parts(json) is Some
    &&& as_text(message_parts(json).unwrap()[3]) is Some
    &&& ohlc_entry(message_parts(json).unwrap()[1]) is Some
}

/// Where a message goes.
#[derive(Debug)]
pub enum MessageRoute {
    /// A status or heartbeat message: nothing to dispatch
    Status,
    Ticker(TickerData),
    OrderBook(OrderBookUpdate),
    Trade(TradeData),
    Ohlc(OHLCData),
    /// Not a message any parser reads
    Unknown,
}

/// Whether `r` is where a message goes, given its JSON form (`None` when it
/// is not JSON): an empty message is an error; status and heartbeat messages
/// need nothing; otherwise the first of ticker, trade and OHLC data that the
/// JSON form reads as, else nowhere.
pub open spec fn routes(message: Seq<char>, json: Option<JsonValue>, r: Result<MessageRoute, ProcessingError>) -> bool {
    &&& message.len() == 0 <==> (r matches Err(ProcessingError::ProcessingFailed(m)) && m@ == "Empty message received"@)
    &&& message.len() > 0 && is_status(message) ==> (r matches Ok(MessageRoute::Status))
    &&& message.len() > 0 && !is_status(message) ==> (match json {
        None => r matches Ok(MessageRoute::Unknown),
        Some(j) => if ticker_accepts(j) {
            r matches Ok(MessageRoute::Ticker(t)) && ticker_read(j, Ok(t))
        } else if trade_accepts(j) {
            r matches Ok(MessageRoute::Trade(t)) && trade_read(j, Ok(t))
        } else if ohlc_accepts(j) {
            r matches Ok(MessageRoute::Ohlc(o)) && ohlc_read(j, Ok(o))
        } else {
            r matches Ok(MessageRoute::Unknown)
        },
    })
}

/// Routes WebSocket messages to the parser that reads them.
#[derive(Debug)]
pub struct MessageHandler {
    parser: KrakenDataParser,
}

impl MessageHandler {
    pub fn new(parser: KrakenDataParser) -> Self {
        MessageHandler { parser }
    }

    /// Replaces the parser.
    pub fn register_parser(&mut self, parser: KrakenDataParser) {
        self.parser = parser;
    }

    /// Routes a message: an empty message is an error; status and heartbeat
    /// messages need nothing; otherwise the message's JSON form (`None` when
    /// it is not JSON) is read as ticker, order book, trade, then OHLC data,
    /// the first that reads successfully winning. An order book message has
    /// the shape a ticker reads (an object as its data), so it reads as a ticker.
    pub fn handle_message(&self, message: &str, json: Option<&JsonValue>) -> (r: Result<MessageRoute, ProcessingError>)
        ensures
            routes(
                message@,
                match json {
                    Some(j) => Some(*j),
                    None => None,
                },
                r,
            ),
    {
        proof {
            reveal_strlit("Empty message received");
            reveal_strlit("subscriptionStatus");
            reveal_strlit("systemStatus");
            reveal_strlit("heartbeat");
        }
        if message.unicode_len() == 0 {
            return Err(ProcessingError::ProcessingFailed(text_of("Empty message received")));
        }
        if contains_text(message, "subscriptionStatus") || contains_text(message, "systemStatus") || contains_text(
            message,
            "heartbeat",
        ) {
            return Ok(MessageRoute::Status);
        }
        match json {
            None => Ok(MessageRoute::Unknown),
            Some(j) => {
                if let Ok(t) = self.parser.parse_ticker(j) {
                    return Ok(MessageRoute::Ticker(t));
                }
                if let Ok(u) = self.parser.parse_orderbook(j) {
                    return Ok(MessageRoute::OrderBook(u));
                }
                if let Ok(t) = self.parser.parse_trade(j) {
                    return Ok(MessageRoute::Trade(t));
                }
                if let Ok(o) = self.parser.parse_ohlc(j) {
                    return Ok(MessageRoute::Ohlc(o));
                }
                Ok(MessageRoute::Unknown)
            },
        }
    }

    /// Routes a message given as text, its JSON form read as the parsers
    /// read it (once more from the cleaned text when the text is not JSON).
    pub fn handle_message_text(&self, message: &str) -> (r: Result<MessageRoute, ProcessingError>)
        ensures
            routes(message@, robust_json(message@), r),
    {
        let parsed = self.parser.parse_json_robust(message);
        match &parsed {
            Ok(v) => self.handle_message(message, Some(v)),
            Err(_) => self.handle_message(message, None),
        }
    }
}

} // verus!