//! Trading performance: balance and drawdown over completed trades, and the
//! statistics of the trades (P&L, win rate, profit factor, Sharpe and
//! Sortino ratios).
//!
//! The arithmetic of `rust_decimal` panics on overflow. Each computation is
//! stated over the checked operations as an `Option` (`None` where one
//! overflows or divides by zero); the panicking forms require `Some`, and
//! `try_` companions return the `Option`.

use crate::decimal::{
    abs, checked_add, checked_div, checked_mul, checked_sub, dec_abs, dec_add, dec_div, dec_from_i64, dec_from_u32,
    dec_from_usize, dec_lt, dec_mul, dec_new, dec_of, dec_of_int, dec_of_u32, dec_of_usize, dec_sub, units,
};
use rust_decimal::Decimal;
use vstd::prelude::*;

verus! {

broadcast use vstd::string::group_string_axioms;

/// A completed trade.
#[derive(Debug, Clone)]
pub struct CompletedTrade {
    pub id: String,
    pub pair: String,
    pub side: String,
    pub entry_price: Decimal,
    pub exit_price: Decimal,
    pub volume: Decimal,
    pub pnl: Decimal,
    pub pnl_percent: Decimal,
    /// Microseconds since the Unix epoch (UTC)
    pub entry_time: i64,
    /// Microseconds since the Unix epoch (UTC)
    pub exit_time: i64,
    pub fees: Decimal,
}

/// Whether a trade made money.
pub open spec fn winner(t: CompletedTrade) -> bool {
    units(t.pnl) > 0
}

/// Whole seconds between two instants in microseconds, rounded toward zero.
pub open spec fn seconds_between(start: i64, end: i64) -> int {
    let d = end - start;
    if d >= 0 {
        d / 1_000_000
    } else {
        -((-d) / 1_000_000)
    }
}

impl CompletedTrade {
    /// Whether the trade's P&L is positive.
    pub fn is_winner(&self) -> (b: bool)
        ensures
            b == winner(*self),
    {
        let zero = dec_from_i64(0);
        dec_lt(&zero, &self.pnl)
    }

    /// The trade's duration in whole seconds, rounded toward zero.
    pub fn duration_seconds(&self) -> (s: i64)
        ensures
            s == seconds_between(self.entry_time, self.exit_time),
    {
        let d: i128 = self.exit_time as i128 - self.entry_time as i128;
        if d >= 0 {
            (d / 1_000_000) as i64
        } else {
            let m: i128 = -d;
            -((m / 1_000_000) as i64)
        }
    }

    /// An equal copy.
    fn copy(&self) -> (c: Self)
        ensures
            c == *self,
    {
        CompletedTrade {
            id: self.id.clone(),
            pair: self.pair.clone(),
            side: self.side.clone(),
            entry_price: self.entry_price,
            exit_price: self.exit_price,
            volume: self.volume,
            pnl: self.pnl,
            pnl_percent: self.pnl_percent,
            entry_time: self.entry_time,
            exit_time: self.exit_time,
            fees: self.fees,
        }
    }
}

/// A point of the equity curve.
#[derive(Debug, Clone, Copy)]
pub struct EquityPoint {
    /// Microseconds since the Unix epoch (UTC)
    pub timestamp: i64,
    pub balance: Decimal,
    pub drawdown: Decimal,
    pub drawdown_percent: Decimal,
}

/// Performance statistics.
#[derive(Debug, Clone, Copy)]
pub struct PerformanceStats {
    /// Total number of trades
    pub total_trades: u32,
    /// Number of winning trades
    pub winning_trades: u32,
    /// Number of losing trades
    pub losing_trades: u32,
    /// Win rate (0 to 1)
    pub win_rate: Decimal,
    /// Total P&L
    pub total_pnl: Decimal,
    /// Average P&L per trade
    pub avg_pnl: Decimal,
    /// Average winning trade P&L
    pub avg_win: Decimal,
    /// Average losing trade P&L (magnitude)
    pub avg_loss: Decimal,
    /// Profit factor (gross profit / gross loss)
    pub profit_factor: Decimal,
    /// Largest winning trade
    pub largest_win: Decimal,
    /// Largest losing trade (magnitude)
    pub largest_loss: Decimal,
    /// Maximum drawdown
    pub max_drawdown: Decimal,
    /// Maximum drawdown percentage
    pub max_drawdown_percent: Decimal,
    /// Sharpe ratio (annualized)
    pub sharpe_ratio: Decimal,
    /// Sortino ratio (annualized)
    pub sortino_ratio: Decimal,
    /// Average trade duration in seconds
    pub avg_duration_seconds: i64,
    /// Total fees paid
    pub total_fees: Decimal,
    /// Net P&L (after fees)
    pub net_pnl: Decimal,
}

/// Decimal zero.
pub open spec fn zero() -> Decimal {
    dec_of_int(0)
}

/// Statistics of no trades: every count and amount zero.
pub open spec fn empty_stats(s: PerformanceStats) -> bool {
    &&& s.total_trades == 0
    &&& s.winning_trades == 0
    &&& s.losing_trades == 0
    &&& s.win_rate == zero()
    &&& s.total_pnl == zero()
    &&& s.avg_pnl == zero()
    &&& s.avg_win == zero()
    &&& s.avg_loss == zero()
    &&& s.profit_factor == zero()
    &&& s.largest_win == zero()
    &&& s.largest_loss == zero()
    &&& s.max_drawdown == zero()
    &&& s.max_drawdown_percent == zero()
    &&& s.sharpe_ratio == zero()
    &&& s.sortino_ratio == zero()
    &&& s.avg_duration_seconds == 0
    &&& s.total_fees == zero()
    &&& s.net_pnl == zero()
}

impl Default for PerformanceStats {
    fn default() -> (s: Self)
        ensures
            empty_stats(s),
    {
        let z = dec_from_i64(0);
        PerformanceStats {
            total_trades: 0,
            winning_trades: 0,
            losing_trades: 0,
            win_rate: z,
            total_pnl: z,
            avg_pnl: z,
            avg_win: z,
            avg_loss: z,
            profit_factor: z,
            largest_win: z,
            largest_loss: z,
            max_drawdown: z,
            max_drawdown_percent: z,
            sharpe_ratio: z,
            sortino_ratio: z,
            avg_duration_seconds: 0,
            total_fees: z,
            net_pnl: z,
        }
    }
}

// ---------------------------------------------------------------------------
// Sums, maxima and the trades they range over
// ---------------------------------------------------------------------------

/// The sum of decimals from zero, left to right; `None` on overflow.
pub open spec fn dec_sum(s: Seq<Decimal>) -> Option<Decimal>
    decreases s.len(),
{
    if s.len() == 0 {
        Some(zero())
    } else {
        match dec_sum(s.drop_last()) {
            Some(a) => dec_add(a, s.last()),
            None => None,
        }
    }
}

/// The largest decimal by value, the later of equal ones; zero for none.
pub open spec fn dec_max(s: Seq<Decimal>) -> Decimal
    decreases s.len(),
{
    if s.len() == 0 {
        zero()
    } else if s.len() == 1 {
        s[0]
    } else {
        let m = dec_max(s.drop_last());
        if units(s.last()) >= units(m) {
            s.last()
        } else {
            m
        }
    }
}

/// The winning trades, in order.
pub open spec fn winners(ts: Seq<CompletedTrade>) -> Seq<CompletedTrade>
    decreases ts.len(),
{
    if ts.len() == 0 {
        ts
    } else if winner(ts.last()) {
        winners(ts.drop_last()).push(ts.last())
    } else {
        winners(ts.drop_last())
    }
}

/// The trades that did not make money, in order.
pub open spec fn losers(ts: Seq<CompletedTrade>) -> Seq<CompletedTrade>
    decreases ts.len(),
{
    if ts.len() == 0 {
        ts
    } else if !winner(ts.last()) {
        losers(ts.drop_last()).push(ts.last())
    } else {
        losers(ts.drop_last())
    }
}

/// The P&L of each trade.
pub open spec fn pnls(ts: Seq<CompletedTrade>) -> Seq<Decimal> {
    ts.map_values(|t: CompletedTrade| t.pnl)
}

/// The size of each trade's P&L.
pub open spec fn abs_pnls(ts: Seq<CompletedTrade>) -> Seq<Decimal> {
    ts.map_values(|t: CompletedTrade| dec_abs(t.pnl))
}

/// The fees of each trade.
pub open spec fn fees(ts: Seq<CompletedTrade>) -> Seq<Decimal> {
    ts.map_values(|t: CompletedTrade| t.fees)
}

/// The P&L percentage of each trade.
pub open spec fn returns_of(ts: Seq<CompletedTrade>) -> Seq<Decimal> {
    ts.map_values(|t: CompletedTrade| t.pnl_percent)
}

/// The drawdown of each equity point.
pub open spec fn drawdowns(e: Seq<EquityPoint>) -> Seq<Decimal> {
    e.map_values(|p: EquityPoint| p.drawdown)
}

/// The drawdown percentage of each equity point.
pub open spec fn drawdown_percents(e: Seq<EquityPoint>) -> Seq<Decimal> {
    e.map_values(|p: EquityPoint| p.drawdown_percent)
}

/// The sum of the trades' durations in seconds.
pub open spec fn duration_sum(ts: Seq<CompletedTrade>) -> int
    decreases ts.len(),
{
    if ts.len() == 0 {
        0
    } else {
        duration_sum(ts.drop_last()) + seconds_between(ts.last().entry_time, ts.last().exit_time)
    }
}

/// Whether every running sum of durations fits in an `i64`.
pub open spec fn durations_fit(ts: Seq<CompletedTrade>) -> bool {
    forall|i: int| 0 <= i <= ts.len() ==> i64::MIN <= #[trigger] duration_sum(ts.take(i)) <= i64::MAX
}

/// The sum of decimals, computed.
fn sum_decimals(v: &Vec<Decimal>) -> (r: Option<Decimal>)
    ensures
        r == dec_sum(v@),
{
    let mut acc = dec_from_i64(0);
    let mut i: usize = 0;
    while i < v.len()
        invariant
            i <= v@.len(),
            dec_sum(v@.take(i as int)) == Some(acc),
        decreases v@.len() - i,
    {
        assert(v@.take(i + 1).drop_last() =~= v@.take(i as int));
        match checked_add(&acc, &v[i]) {
            Some(a) => acc = a,
            None => {
                proof {
                    lemma_sum_none(v@, i as int + 1);
                }
                return None;
            },
        }
        i = i + 1;
    }
    assert(v@.take(i as int) =~= v@);
    Some(acc)
}

/// A sum that overflows on a prefix overflows on the whole.
proof fn lemma_sum_none(s: Seq<Decimal>, k: int)
    requires
        0 <= k <= s.len(),
        dec_sum(s.take(k)) is None,
    ensures
        dec_sum(s) is None,
    decreases s.len() - k,
{
    if k < s.len() {
        assert(s.take(k + 1).drop_last() =~= s.take(k));
        lemma_sum_none(s, k + 1);
    } else {
        assert(s.take(k) =~= s);
    }
}

/// The largest decimal, computed.
fn max_decimal(v: &Vec<Decimal>) -> (r: Decimal)
    ensures
        r == dec_max(v@),
{
    if v.len() == 0 {
        return dec_from_i64(0);
    }
    let mut m = v[0];
    let mut i: usize = 1;
    assert(v@.take(1) =~= seq![v@[0]]);
    while i < v.len()
        invariant
            1 <= i <= v@.len(),
            m == dec_max(v@.take(i as int)),
        decreases v@.len() - i,
    {
        assert(v@.take(i + 1).drop_last() =~= v@.take(i as int));
        if !dec_lt(&v[i], &m) {
            m = v[i];
        }
        i = i + 1;
    }
    assert(v@.take(i as int) =~= v@);
    m
}

// ---------------------------------------------------------------------------
// Square root, Sharpe and Sortino
// ---------------------------------------------------------------------------

/// Two.
pub open spec fn two() -> Decimal {
    dec_of_int(2)
}

/// The convergence bound of the square root, 0.0000001.
pub open spec fn sqrt_tolerance() -> Decimal {
    dec_of(1, 7)
}

/// Newton's iteration for the square root of `n` from `x`, at most `k` more
/// steps, stopping when a step moves less than the tolerance.
pub open spec fn newton(n: Decimal, x: Decimal, k: nat) -> Option<Decimal>
    decreases k,
{
    if k == 0 {
        Some(x)
    } else {
        match dec_div(n, x) {
            None => None,
            Some(q) => match dec_add(x, q) {
                None => None,
                Some(s) => match dec_div(s, two()) {
                    None => None,
                    Some(next) => match dec_sub(next, x) {
                        None => None,
                        Some(d) => if units(dec_abs(d)) < units(sqrt_tolerance()) {
                            Some(next)
                        } else {
                            newton(n, next, (k - 1) as nat)
                        },
                    },
                },
            },
        }
    }
}

/// The approximate square root: zero for a value not above zero, else
/// twenty Newton steps from the value itself.
pub open spec fn sqrt_of(n: Decimal) -> Option<Decimal> {
    if units(n) <= 0 {
        Some(zero())
    } else {
        newton(n, n, 20)
    }
}

/// The approximate square root (`sqrt_of`), `None` where a step overflows.
pub fn decimal_sqrt(n: Decimal) -> (r: Option<Decimal>)
    ensures
        r == sqrt_of(n),
{
    let zero = dec_from_i64(0);
    if !dec_lt(&zero, &n) {
        return Some(zero);
    }
    let half_of = dec_from_i64(2);
    let tolerance = dec_new(1, 7);
    let mut x = n;
    let mut k: u32 = 20;
    while k > 0
        invariant
            k <= 20,
            units(n) > 0,
            half_of == two(),
            tolerance == sqrt_tolerance(),
            newton(n, n, 20) == newton(n, x, k as nat),
        decreases k,
    {
        let q = match checked_div(&n, &x) {
            Some(q) => q,
            None => return None,
        };
        let s = match checked_add(&x, &q) {
            Some(s) => s,
            None => return None,
        };
        let next = match checked_div(&s, &half_of) {
            Some(v) => v,
            None => return None,
        };
        let d = match checked_sub(&next, &x) {
            Some(d) => d,
            None => return None,
        };
        if dec_lt(&abs(&d), &tolerance) {
            return Some(next);
        }
        x = next;
        k = k - 1;
    }
    Some(x)
}

/// Decimal 252, trading days in a year.
pub open spec fn days() -> Decimal {
    dec_of_int(252)
}

/// The running sum of squared deviations from `mean`, left to right.
pub open spec fn sq_dev_sum(rs: Seq<Decimal>, mean: Decimal) -> Option<Decimal>
    decreases rs.len(),
{
    if rs.len() == 0 {
        Some(zero())
    } else {
        match sq_dev_sum(rs.drop_last(), mean) {
            None => None,
            Some(acc) => match dec_sub(rs.last(), mean) {
                None => None,
                Some(d) => match dec_mul(d, d) {
                    None => None,
                    Some(sq) => dec_add(acc, sq),
                },
            },
        }
    }
}

/// The mean of returns (at least one).
pub open spec fn mean_of(rs: Seq<Decimal>) -> Option<Decimal> {
    match dec_sum(rs) {
        Some(s) => dec_div(s, dec_of_usize(rs.len() as usize)),
        None => None,
    }
}

/// An annualized ratio: `mean × 252 / (dev × √252)`, zero for a
/// deviation not above zero.
pub open spec fn annualized(mean: Decimal, dev: Decimal) -> Option<Decimal> {
    if units(dev) <= 0 {
        Some(zero())
    } else {
        match (dec_mul(mean, days()), sqrt_of(days())) {
            (Some(ret), Some(root)) => match dec_mul(dev, root) {
                None => None,
                Some(ann) => if units(ann) > 0 {
                    dec_div(ret, ann)
                } else {
                    Some(zero())
                },
            },
            _ => None,
        }
    }
}

/// The annualized Sharpe ratio of returns: zero for fewer than two.
pub open spec fn sharpe_of(rs: Seq<Decimal>) -> Option<Decimal> {
    if rs.len() < 2 {
        Some(zero())
    } else {
        match mean_of(rs) {
            None => None,
            Some(mean) => match sq_dev_sum(rs, mean) {
                None => None,
                Some(ss) => match dec_div(ss, dec_of_usize(rs.len() as usize)) {
                    None => None,
                    Some(var) => if units(var) <= 0 {
                        Some(zero())
                    } else {
                        match sqrt_of(var) {
                            None => None,
                            Some(dev) => annualized(mean, dev),
                        }
                    },
                },
            },
        }
    }
}

/// One step of Newton's method toward the square root of `n` from `x`:
/// `(x + n / x) / 2`.
pub open spec fn newton_step(n: Decimal, x: Decimal) -> Option<Decimal> {
    match dec_div(n, x) {
        None => None,
        Some(q) => match dec_add(x, q) {
            None => None,
            Some(s) => dec_div(s, dec_of_int(2)),
        },
    }
}

/// What Newton's iteration gives after at least one step is a Newton step
/// from some value.
proof fn lemma_newton_ends_in_step(n: Decimal, x: Decimal, k: nat) -> (z: Decimal)
    requires
        k >= 1,
        newton(n, x, k) is Some,
    ensures
        newton_step(n, z) == newton(n, x, k),
    decreases k,
{
    let q = dec_div(n, x).unwrap();
    let s = dec_add(x, q).unwrap();
    let next = dec_div(s, two()).unwrap();
    let d = dec_sub(next, x).unwrap();
    if units(dec_abs(d)) < units(sqrt_tolerance()) || k == 1 {
        x
    } else {
        lemma_newton_ends_in_step(n, next, (k - 1) as nat)
    }
}

/// The Sharpe ratio of returns (when not zero) divides the annualized mean
/// by the annualized standard deviation: `mean × 252 / (dev × √252)`, where
/// `dev` is the square root of the population variance (the sum of squared
/// deviations from the mean over the count) as Newton's method finds it,
/// a step `(x + variance / x) / 2` from some `x`, and not the variance
/// itself. The witnesses returned are the mean, the variance, that `x`,
/// the deviation and `√252`.
pub proof fn law_sharpe_divides_by_deviation(rs: Seq<Decimal>) -> (w: (Decimal, Decimal, Decimal, Decimal, Decimal))
    requires
        sharpe_of(rs) is Some,
        sharpe_of(rs) != Some(zero()),
    ensures
        rs.len() >= 2,
        mean_of(rs) == Some(w.0),
        sq_dev_sum(rs, w.0) matches Some(ss) && dec_div(ss, dec_of_usize(rs.len() as usize)) == Some(w.1),
        units(w.1) > 0,
        newton_step(w.1, w.2) == Some(w.3),
        units(w.3) > 0,
        sqrt_of(dec_of_int(252)) == Some(w.4),
        dec_mul(w.0, dec_of_int(252)) matches Some(ret) && dec_mul(w.3, w.4) matches Some(ann) && units(ann) > 0
            && sharpe_of(rs) == dec_div(ret, ann),
{
    let mean = mean_of(rs).unwrap();
    let ss = sq_dev_sum(rs, mean).unwrap();
    let var = dec_div(ss, dec_of_usize(rs.len() as usize)).unwrap();
    let dev = sqrt_of(var).unwrap();
    let x = lemma_newton_ends_in_step(var, var, 20);
    let root = sqrt_of(days()).unwrap();
    (mean, var, x, dev, root)
}

/// The Sortino ratio of returns (when neither zero nor the 999.99 cap)
/// divides the annualized mean by the annualized downside deviation:
/// `mean × 252 / (dev × √252)`, where `dev` is the square root, as Newton's
/// method finds it, of the mean of the squared negative returns: a step
/// `(x + variance / x) / 2` from some `x` (or zero for a variance not above
/// zero). The witnesses returned are the mean, the downside variance, that
/// `x`, the deviation and `√252`.
pub proof fn law_sortino_divides_by_downside_deviation(rs: Seq<Decimal>) -> (w: (
    Decimal,
    Decimal,
    Decimal,
    Decimal,
    Decimal,
))
    requires
        sortino_of(rs) is Some,
        sortino_of(rs) != Some(zero()),
        sortino_of(rs) != Some(capped_ratio()),
    ensures
        rs.len() >= 2,
        mean_of(rs) == Some(w.0),
        downside(rs) matches Some(d) && d.len() > 0 && (dec_sum(d) matches Some(t) && dec_div(
            t,
            dec_of_usize(d.len() as usize),
        ) == Some(w.1)),
        units(w.1) > 0 ==> newton_step(w.1, w.2) == Some(w.3),
        units(w.1) <= 0 ==> w.3 == zero(),
        units(w.3) > 0,
        sqrt_of(dec_of_int(252)) == Some(w.4),
        dec_mul(w.0, dec_of_int(252)) matches Some(ret) && dec_mul(w.3, w.4) matches Some(ann) && units(ann) > 0
            && sortino_of(rs) == dec_div(ret, ann),
{
    let mean = mean_of(rs).unwrap();
    let d = downside(rs).unwrap();
    let total = dec_sum(d).unwrap();
    let var = dec_div(total, dec_of_usize(d.len() as usize)).unwrap();
    let dev = sqrt_of(var).unwrap();
    let x = if units(var) > 0 {
        lemma_newton_ends_in_step(var, var, 20)
    } else {
        var
    };
    let root = sqrt_of(days()).unwrap();
    (mean, var, x, dev, root)
}

/// The squares of the negative returns, in order.
pub open spec fn downside(rs: Seq<Decimal>) -> Option<Seq<Decimal>>
    decreases rs.len(),
{
    if rs.len() == 0 {
        Some(Seq::empty())
    } else {
        match downside(rs.drop_last()) {
            None => None,
            Some(d) => if units(rs.last()) < 0 {
                match dec_mul(rs.last(), rs.last()) {
                    Some(sq) => Some(d.push(sq)),
                    None => None,
                }
            } else {
                Some(d)
            },
        }
    }
}

/// 999.99, the ratio reported when nothing bounds it.
pub open spec fn capped_ratio() -> Decimal {
    dec_of(99999, 2)
}

/// The annualized Sortino ratio of returns: zero for fewer than two, 999.99
/// when none is negative.
pub open spec fn sortino_of(rs: Seq<Decimal>) -> Option<Decimal> {
    if rs.len() < 2 {
        Some(zero())
    } else {
        match mean_of(rs) {
            None => None,
            Some(mean) => match downside(rs) {
                None => None,
                Some(d) => if d.len() == 0 {
                    Some(capped_ratio())
                } else {
                    match dec_sum(d) {
                        None => None,
                        Some(total) => match dec_div(total, dec_of_usize(d.len() as usize)) {
                            None => None,
                            Some(var) => match sqrt_of(var) {
                                None => None,
                                Some(dev) => annualized(mean, dev),
                            },
                        },
                    }
                },
            },
        }
    }
}

/// Computes the mean of returns.
fn mean(rs: &Vec<Decimal>) -> (r: Option<Decimal>)
    ensures
        r == mean_of(rs@),
{
    match sum_decimals(rs) {
        Some(s) => checked_div(&s, &dec_from_usize(rs.len())),
        None => None,
    }
}

/// Computes `annualized`.
fn annualize(mean: Decimal, dev: Decimal) -> (r: Option<Decimal>)
    ensures
        r == annualized(mean, dev),
{
    let zero = dec_from_i64(0);
    if !dec_lt(&zero, &dev) {
        return Some(zero);
    }
    let days = dec_from_i64(252);
    let ret = checked_mul(&mean, &days);
    let root = decimal_sqrt(days);
    match (ret, root) {
        (Some(ret), Some(root)) => match checked_mul(&dev, &root) {
            None => None,
            Some(ann) => if dec_lt(&zero, &ann) {
                checked_div(&ret, &ann)
            } else {
                Some(zero)
            },
        },
        _ => None,
    }
}

/// Computes the sum of squared deviations.
fn squared_deviations(rs: &Vec<Decimal>, mean: Decimal) -> (r: Option<Decimal>)
    ensures
        r == sq_dev_sum(rs@, mean),
{
    let mut acc = dec_from_i64(0);
    let mut i: usize = 0;
    while i < rs.len()
        invariant
            i <= rs@.len(),
            sq_dev_sum(rs@.take(i as int), mean) == Some(acc),
        decreases rs@.len() - i,
    {
        assert(rs@.take(i + 1).drop_last() =~= rs@.take(i as int));
        let step = match checked_sub(&rs[i], &mean) {
            Some(d) => match checked_mul(&d, &d) {
                Some(sq) => checked_add(&acc, &sq),
                None => None,
            },
            None => None,
        };
        match step {
            Some(a) => acc = a,
            None => {
                proof {
                    lemma_sq_dev_none(rs@, mean, i as int + 1);
                }
                return None;
            },
        }
        i = i + 1;
    }
    assert(rs@.take(i as int) =~= rs@);
    Some(acc)
}

proof fn lemma_sq_dev_none(s: Seq<Decimal>, mean: Decimal, k: int)
    requires
        0 <= k <= s.len(),
        sq_dev_sum(s.take(k), mean) is None,
    ensures
        sq_dev_sum(s, mean) is None,
    decreases s.len() - k,
{
    if k < s.len() {
        assert(s.take(k + 1).drop_last() =~= s.take(k));
        lemma_sq_dev_none(s, mean, k + 1);
    } else {
        assert(s.take(k) =~= s);
    }
}

/// Computes the squares of the negative returns.
fn downside_squares(rs: &Vec<Decimal>) -> (r: Option<Vec<Decimal>>)
    ensures
        match r {
            Some(v) => downside(rs@) == Some(v@),
            None => downside(rs@) is None,
        },
{
    let nothing = dec_from_i64(0);
    let mut out: Vec<Decimal> = Vec::new();
    let mut i: usize = 0;
    while i < rs.len()
        invariant
            i <= rs@.len(),
            nothing == zero(),
            units(nothing) == 0,
            downside(rs@.take(i as int)) == Some(out@),
        decreases rs@.len() - i,
    {
        assert(rs@.take(i + 1).drop_last() =~= rs@.take(i as int));
        assert(rs@.take(i + 1).last() == rs@[i as int]);
        if dec_lt(&rs[i], &nothing) {
            match checked_mul(&rs[i], &rs[i]) {
                Some(sq) => out.push(sq),
                None => {
                    proof {
                        lemma_downside_none(rs@, i as int + 1);
                    }
                    return None;
                },
            }
        }
        i = i + 1;
    }
    assert(rs@.take(i as int) =~= rs@);
    Some(out)
}

proof fn lemma_downside_none(s: Seq<Decimal>, k: int)
    requires
        0 <= k <= s.len(),
        downside(s.take(k)) is None,
    ensures
        downside(s) is None,
    decreases s.len() - k,
{
    if k < s.len() {
        assert(s.take(k + 1).drop_last() =~= s.take(k));
        lemma_downside_none(s, k + 1);
    } else {
        assert(s.take(k) =~= s);
    }
}

/// Computes the Sharpe ratio.
fn calculate_sharpe(rs: &Vec<Decimal>) -> (r: Option<Decimal>)
    ensures
        r == sharpe_of(rs@),
{
    if rs.len() < 2 {
        return Some(dec_from_i64(0));
    }
    let m = match mean(rs) {
        Some(m) => m,
        None => return None,
    };
    let ss = match squared_deviations(rs, m) {
        Some(s) => s,
        None => return None,
    };
    let var = match checked_div(&ss, &dec_from_usize(rs.len())) {
        Some(v) => v,
        None => return None,
    };
    let zero = dec_from_i64(0);
    if !dec_lt(&zero, &var) {
        return Some(zero);
    }
    match decimal_sqrt(var) {
        None => None,
        Some(dev) => annualize(m, dev),
    }
}

/// Computes the Sortino ratio.
fn calculate_sortino(rs: &Vec<Decimal>) -> (r: Option<Decimal>)
    ensures
        r == sortino_of(rs@),
{
    if rs.len() < 2 {
        return Some(dec_from_i64(0));
    }
    let m = match mean(rs) {
        Some(m) => m,
        None => return None,
    };
    let d = match downside_squares(rs) {
        Some(d) => d,
        None => return None,
    };
    if d.len() == 0 {
        return Some(dec_new(99999, 2));
    }
    let total = match sum_decimals(&d) {
        Some(t) => t,
        None => return None,
    };
    let var = match checked_div(&total, &dec_from_usize(d.len())) {
        Some(v) => v,
        None => return None,
    };
    match decimal_sqrt(var) {
        None => None,
        Some(dev) => annualize(m, dev),
    }
}

// ---------------------------------------------------------------------------
// Statistics of a list of trades
// ---------------------------------------------------------------------------

/// Integer division rounded toward zero, as Rust divides.
pub open spec fn div_toward_zero(a: int, b: int) -> int {
    if a >= 0 {
        a / b
    } else {
        -((-a) / b)
    }
}

/// Win rate: winners over all trades.
pub open spec fn win_rate_of(ts: Seq<CompletedTrade>) -> Option<Decimal> {
    dec_div(dec_of_u32(winners(ts).len() as u32), dec_of_u32(ts.len() as u32))
}

/// Net P&L: total P&L less total fees.
pub open spec fn net_of(ts: Seq<CompletedTrade>) -> Option<Decimal> {
    match (dec_sum(pnls(ts)), dec_sum(fees(ts))) {
        (Some(p), Some(f)) => dec_sub(p, f),
        _ => None,
    }
}

/// Average P&L per trade.
pub open spec fn avg_pnl_of(ts: Seq<CompletedTrade>) -> Option<Decimal> {
    match dec_sum(pnls(ts)) {
        Some(p) => dec_div(p, dec_of_u32(ts.len() as u32)),
        None => None,
    }
}

/// An average over a group of trades: zero for none.
pub open spec fn group_avg(total: Option<Decimal>, count: nat) -> Option<Decimal> {
    match total {
        None => None,
        Some(t) => if count > 0 {
            dec_div(t, dec_of_usize(count as usize))
        } else {
            Some(zero())
        },
    }
}

/// Profit factor: gross profit over gross loss; 999.99 when there is profit
/// and no loss; zero when neither.
pub open spec fn profit_factor_of(gross_profit: Option<Decimal>, gross_loss: Option<Decimal>) -> Option<Decimal> {
    match (gross_profit, gross_loss) {
        (Some(gp), Some(gl)) => if units(gl) > 0 {
            dec_div(gp, gl)
        } else if units(gp) > 0 {
            Some(capped_ratio())
        } else {
            Some(zero())
        },
        _ => None,
    }
}

/// Whether every statistic of non-empty trades can be computed: no
/// overflow, and the durations' running sum fits an `i64`.
pub open spec fn stats_computable(ts: Seq<CompletedTrade>, eq: Seq<EquityPoint>) -> bool {
    &&& win_rate_of(ts) is Some
    &&& dec_sum(pnls(ts)) is Some
    &&& dec_sum(fees(ts)) is Some
    &&& net_of(ts) is Some
    &&& avg_pnl_of(ts) is Some
    &&& group_avg(dec_sum(pnls(winners(ts))), winners(ts).len()) is Some
    &&& group_avg(dec_sum(abs_pnls(losers(ts))), losers(ts).len()) is Some
    &&& profit_factor_of(dec_sum(pnls(winners(ts))), dec_sum(abs_pnls(losers(ts)))) is Some
    &&& sharpe_of(returns_of(ts)) is Some
    &&& sortino_of(returns_of(ts)) is Some
    &&& durations_fit(ts)
}

/// The statistics of trades with their equity curve: all zero for no
/// trades; `None` where a computation overflows.
pub open spec fn stats_of(ts: Seq<CompletedTrade>, eq: Seq<EquityPoint>) -> Option<PerformanceStats> {
    if ts.len() == 0 {
        Some(
            PerformanceStats {
                total_trades: 0,
                winning_trades: 0,
                losing_trades: 0,
                win_rate: zero(),
                total_pnl: zero(),
                avg_pnl: zero(),
                avg_win: zero(),
                avg_loss: zero(),
                profit_factor: zero(),
                largest_win: zero(),
                largest_loss: zero(),
                max_drawdown: zero(),
                max_drawdown_percent: zero(),
                sharpe_ratio: zero(),
                sortino_ratio: zero(),
                avg_duration_seconds: 0,
                total_fees: zero(),
                net_pnl: zero(),
            },
        )
    } else if !stats_computable(ts, eq) {
        None
    } else {
        Some(
            PerformanceStats {
                total_trades: ts.len() as u32,
                winning_trades: winners(ts).len() as u32,
                losing_trades: losers(ts).len() as u32,
                win_rate: win_rate_of(ts)->0,
                total_pnl: dec_sum(pnls(ts))->0,
                avg_pnl: avg_pnl_of(ts)->0,
                avg_win: group_avg(dec_sum(pnls(winners(ts))), winners(ts).len())->0,
                avg_loss: group_avg(dec_sum(abs_pnls(losers(ts))), losers(ts).len())->0,
                profit_factor: profit_factor_of(dec_sum(pnls(winners(ts))), dec_sum(abs_pnls(losers(ts))))->0,
                largest_win: dec_max(pnls(winners(ts))),
                largest_loss: dec_max(abs_pnls(losers(ts))),
                max_drawdown: dec_max(drawdowns(eq)),
                max_drawdown_percent: dec_max(drawdown_percents(eq)),
                sharpe_ratio: sharpe_of(returns_of(ts))->0,
                sortino_ratio: sortino_of(returns_of(ts))->0,
                avg_duration_seconds: div_toward_zero(duration_sum(ts), ts.len() as int) as i64,
                total_fees: dec_sum(fees(ts))->0,
                net_pnl: net_of(ts)->0,
            },
        )
    }
}

proof fn lemma_split_counts(ts: Seq<CompletedTrade>)
    ensures
        winners(ts).len() + losers(ts).len() == ts.len(),
    decreases ts.len(),
{
    if ts.len() > 0 {
        lemma_split_counts(ts.drop_last());
    }
}

/// The values the statistics are computed from.
struct Columns {
    pnls: Vec<Decimal>,
    fees: Vec<Decimal>,
    returns: Vec<Decimal>,
    win_pnls: Vec<Decimal>,
    loss_sizes: Vec<Decimal>,
}

/// Reads the columns of trades.
fn columns(ts: &Vec<CompletedTrade>) -> (c: Columns)
    ensures
        c.pnls@ == pnls(ts@),
        c.fees@ == fees(ts@),
        c.returns@ == returns_of(ts@),
        c.win_pnls@ == pnls(winners(ts@)),
        c.loss_sizes@ == abs_pnls(losers(ts@)),
{
    let mut c = Columns {
        pnls: Vec::new(),
        fees: Vec::new(),
        returns: Vec::new(),
        win_pnls: Vec::new(),
        loss_sizes: Vec::new(),
    };
    let mut i: usize = 0;
    while i < ts.len()
        invariant
            i <= ts@.len(),
            c.pnls@ == pnls(ts@.take(i as int)),
            c.fees@ == fees(ts@.take(i as int)),
            c.returns@ == returns_of(ts@.take(i as int)),
            c.win_pnls@ == pnls(winners(ts@.take(i as int))),
            c.loss_sizes@ == abs_pnls(losers(ts@.take(i as int))),
        decreases ts@.len() - i,
    {
        let ghost before = ts@.take(i as int);
        let ghost after = ts@.take(i + 1);
        assert(after.drop_last() =~= before);
        assert(after.last() == ts@[i as int]);
        let t = &ts[i];
        c.pnls.push(t.pnl);
        c.fees.push(t.fees);
        c.returns.push(t.pnl_percent);
        if t.is_winner() {
            c.win_pnls.push(t.pnl);
            assert(winners(after) == winners(before).push(ts@[i as int]));
            assert(losers(after) == losers(before));
        } else {
            c.loss_sizes.push(abs(&t.pnl));
            assert(losers(after) == losers(before).push(ts@[i as int]));
            assert(winners(after) == winners(before));
        }
        assert(c.pnls@ =~= pnls(after));
        assert(c.fees@ =~= fees(after));
        assert(c.returns@ =~= returns_of(after));
        assert(c.win_pnls@ =~= pnls(winners(after)));
        assert(c.loss_sizes@ =~= abs_pnls(losers(after)));
        i = i + 1;
    }
    assert(ts@.take(i as int) =~= ts@);
    c
}

/// The drawdowns and their percentages along an equity curve.
fn equity_columns(e: &Vec<EquityPoint>) -> (r: (Vec<Decimal>, Vec<Decimal>))
    ensures
        r.0@ == drawdowns(e@),
        r.1@ == drawdown_percents(e@),
{
    let mut dd: Vec<Decimal> = Vec::new();
    let mut ddp: Vec<Decimal> = Vec::new();
    let mut i: usize = 0;
    while i < e.len()
        invariant
            i <= e@.len(),
            dd@ == drawdowns(e@.take(i as int)),
            ddp@ == drawdown_percents(e@.take(i as int)),
        decreases e@.len() - i,
    {
        dd.push(e[i].drawdown);
        ddp.push(e[i].drawdown_percent);
        assert(dd@ =~= drawdowns(e@.take(i + 1)));
        assert(ddp@ =~= drawdown_percents(e@.take(i + 1)));
        i = i + 1;
    }
    assert(e@.take(i as int) =~= e@);
    (dd, ddp)
}

/// The running sum of durations, `None` where it leaves the `i64` range.
fn sum_durations(ts: &Vec<CompletedTrade>) -> (r: Option<i64>)
    ensures
        match r {
            Some(s) => durations_fit(ts@) && s == duration_sum(ts@),
            None => !durations_fit(ts@),
        },
{
    let mut acc: i64 = 0;
    let mut i: usize = 0;
    assert(ts@.take(0) =~= Seq::<CompletedTrade>::empty());
    while i < ts.len()
        invariant
            i <= ts@.len(),
            acc == duration_sum(ts@.take(i as int)),
            forall|j: int| 0 <= j <= i ==> i64::MIN <= #[trigger] duration_sum(ts@.take(j)) <= i64::MAX,
        decreases ts@.len() - i,
    {
        assert(ts@.take(i + 1).drop_last() =~= ts@.take(i as int));
        assert(ts@.take(i + 1).last() == ts@[i as int]);
        let d = ts[i].duration_seconds();
        let next: i128 = acc as i128 + d as i128;
        if next < i64::MIN as i128 || next > i64::MAX as i128 {
            assert(!(i64::MIN <= duration_sum(ts@.take(i + 1)) <= i64::MAX));
            return None;
        }
        acc = next as i64;
        i = i + 1;
    }
    assert(ts@.take(i as int) =~= ts@);
    Some(acc)
}

/// Computes the statistics of trades with their equity curve.
fn stats_for(ts: &Vec<CompletedTrade>, eq: &Vec<EquityPoint>) -> (r: Option<PerformanceStats>)
    requires
        ts@.len() <= 1000,
    ensures
        r == stats_of(ts@, eq@),
{
    if ts.len() == 0 {
        return Some(PerformanceStats::default());
    }
    proof {
        lemma_split_counts(ts@);
    }
    let c = columns(ts);
    let (dd, ddp) = equity_columns(eq);
    let n = ts.len() as u32;
    let wins = c.win_pnls.len() as u32;
    let losses = c.loss_sizes.len() as u32;
    let win_rate = checked_div(&dec_from_u32(wins), &dec_from_u32(n));
    let total_pnl = sum_decimals(&c.pnls);
    let total_fees = sum_decimals(&c.fees);
    let net = match (total_pnl, total_fees) {
        (Some(p), Some(f)) => checked_sub(&p, &f),
        _ => None,
    };
    let avg_pnl = match total_pnl {
        Some(p) => checked_div(&p, &dec_from_u32(n)),
        None => None,
    };
    let gross_profit = sum_decimals(&c.win_pnls);
    let gross_loss = sum_decimals(&c.loss_sizes);
    let avg_win = average(gross_profit, c.win_pnls.len());
    let avg_loss = average(gross_loss, c.loss_sizes.len());
    let profit_factor = profit_factor(gross_profit, gross_loss);
    let sharpe = calculate_sharpe(&c.returns);
    let sortino = calculate_sortino(&c.returns);
    let durations = sum_durations(ts);
    match (win_rate, total_pnl, total_fees, net, avg_pnl, avg_win, avg_loss, profit_factor, sharpe, sortino, durations) {
        (
            Some(win_rate),
            Some(total_pnl),
            Some(total_fees),
            Some(net_pnl),
            Some(avg_pnl),
            Some(avg_win),
            Some(avg_loss),
            Some(profit_factor),
            Some(sharpe_ratio),
            Some(sortino_ratio),
            Some(duration_total),
        ) => {
            let t: i128 = duration_total as i128;
            let q: i128 = if t >= 0 {
                t / (n as i128)
            } else {
                -((-t) / (n as i128))
            };
            proof {
                if t >= 0 {
                    assert(0 <= (t as int) / (n as int) <= t) by (nonlinear_arith)
                        requires
                            t >= 0,
                            n >= 1,
                    ;
                } else {
                    let u: int = -t;
                    assert(0 <= u / (n as int) <= u) by (nonlinear_arith)
                        requires
                            u > 0,
                            n >= 1,
                    ;
                }
            }
            let avg_duration_seconds = q as i64;
            assert(ts@.len() > 0);
            assert(win_rate_of(ts@) is Some);
            assert(dec_sum(pnls(ts@)) is Some);
            assert(net_of(ts@) is Some);
            assert(avg_pnl_of(ts@) is Some);
            assert(group_avg(dec_sum(pnls(winners(ts@))), winners(ts@).len()) is Some);
            assert(group_avg(dec_sum(abs_pnls(losers(ts@))), losers(ts@).len()) is Some);
            assert(profit_factor_of(dec_sum(pnls(winners(ts@))), dec_sum(abs_pnls(losers(ts@)))) is Some);
            assert(sharpe_of(returns_of(ts@)) is Some);
            assert(sortino_of(returns_of(ts@)) is Some);
            assert(durations_fit(ts@));
            Some(
                PerformanceStats {
                    total_trades: n,
                    winning_trades: wins,
                    losing_trades: losses,
                    win_rate,
                    total_pnl,
                    avg_pnl,
                    avg_win,
                    avg_loss,
                    profit_factor,
                    largest_win: max_decimal(&c.win_pnls),
                    largest_loss: max_decimal(&c.loss_sizes),
                    max_drawdown: max_decimal(&dd),
                    max_drawdown_percent: max_decimal(&ddp),
                    sharpe_ratio,
                    sortino_ratio,
                    avg_duration_seconds,
                    total_fees,
                    net_pnl,
                },
            )
        },
        _ => None,
    }
}

/// Computes `group_avg`.
fn average(total: Option<Decimal>, count: usize) -> (r: Option<Decimal>)
    ensures
        r == group_avg(total, count as nat),
{
    match total {
        None => None,
        Some(t) => if count > 0 {
            checked_div(&t, &dec_from_usize(count))
        } else {
            Some(dec_from_i64(0))
        },
    }
}

/// Computes `profit_factor_of`.
fn profit_factor(gross_profit: Option<Decimal>, gross_loss: Option<Decimal>) -> (r: Option<Decimal>)
    ensures
        r == profit_factor_of(gross_profit, gross_loss),
{
    let zero = dec_from_i64(0);
    match (gross_profit, gross_loss) {
        (Some(gp), Some(gl)) => if dec_lt(&zero, &gl) {
            checked_div(&gp, &gl)
        } else if dec_lt(&zero, &gp) {
            Some(dec_new(99999, 2))
        } else {
            Some(zero)
        },
        _ => None,
    }
}

// ---------------------------------------------------------------------------
// The tracker
// ---------------------------------------------------------------------------

/// Decimal 100.
pub open spec fn hundred() -> Decimal {
    dec_of_int(100)
}

/// The balance after a trade: its P&L less its fees added.
pub open spec fn balance_after(balance: Decimal, t: CompletedTrade) -> Option<Decimal> {
    match dec_sub(t.pnl, t.fees) {
        Some(d) => dec_add(balance, d),
        None => None,
    }
}

/// The peak balance after reaching a balance.
pub open spec fn peak_after(peak: Decimal, balance: Decimal) -> Decimal {
    if units(balance) > units(peak) {
        balance
    } else {
        peak
    }
}

/// A drawdown as a percentage of the peak; zero for a peak not above zero.
pub open spec fn drawdown_percent_of(drawdown: Decimal, peak: Decimal) -> Option<Decimal> {
    if units(peak) > 0 {
        match dec_div(drawdown, peak) {
            Some(q) => dec_mul(q, hundred()),
            None => None,
        }
    } else {
        Some(zero())
    }
}

/// The equity point recorded for a trade, from the balance and peak before it.
pub open spec fn equity_point_after(balance: Decimal, peak: Decimal, t: CompletedTrade) -> Option<EquityPoint> {
    match balance_after(balance, t) {
        None => None,
        Some(b) => {
            let p = peak_after(peak, b);
            match dec_sub(p, b) {
                None => None,
                Some(dd) => match drawdown_percent_of(dd, p) {
                    None => None,
                    Some(pct) => Some(EquityPoint { timestamp: t.exit_time, balance: b, drawdown: dd, drawdown_percent: pct }),
                },
            }
        },
    }
}

/// The last `n` items.
pub open spec fn keep_last<T>(s: Seq<T>, n: nat) -> Seq<T> {
    if s.len() > n {
        s.skip(s.len() - n)
    } else {
        s
    }
}

/// The number of trades and equity points kept.
pub open spec fn history_limit() -> nat {
    1000
}

/// Tracks balance, drawdown and the most recent trades.
#[derive(Debug)]
pub struct PerformanceTracker {
    trades: Vec<CompletedTrade>,
    equity_curve: Vec<EquityPoint>,
    initial_balance: Decimal,
    current_balance: Decimal,
    peak_balance: Decimal,
    max_trades: usize,
}

impl PerformanceTracker {
    /// The kept trades, oldest first.
    pub closed spec fn trades(&self) -> Seq<CompletedTrade> {
        self.trades@
    }

    /// The kept equity points, oldest first.
    pub closed spec fn equity(&self) -> Seq<EquityPoint> {
        self.equity_curve@
    }

    /// The starting balance.
    pub closed spec fn initial(&self) -> Decimal {
        self.initial_balance
    }

    /// The balance now.
    pub closed spec fn balance(&self) -> Decimal {
        self.current_balance
    }

    /// The highest balance reached.
    pub closed spec fn peak(&self) -> Decimal {
        self.peak_balance
    }

    /// At most the history limit of trades and of equity points.
    pub closed spec fn wf(&self) -> bool {
        &&& self.max_trades == history_limit()
        &&& self.trades@.len() <= history_limit()
        &&& self.equity_curve@.len() <= history_limit()
    }

    /// A tracker starting from a balance.
    pub fn new(initial_balance: Decimal) -> (t: Self)
        ensures
            t.wf(),
            t.trades() == Seq::<CompletedTrade>::empty(),
            t.equity() == Seq::<EquityPoint>::empty(),
            t.initial() == initial_balance,
            t.balance() == initial_balance,
            t.peak() == initial_balance,
    {
        PerformanceTracker {
            trades: Vec::new(),
            equity_curve: Vec::new(),
            initial_balance,
            current_balance: initial_balance,
            peak_balance: initial_balance,
            max_trades: 1000,
        }
    }

    /// Records a completed trade, `false` (and nothing changed) where the
    /// balance or drawdown arithmetic overflows.
    pub fn try_record_trade(&mut self, trade: CompletedTrade) -> (ok: bool)
        requires
            old(self).wf(),
        ensures
            final(self).wf(),
            ok == equity_point_after(old(self).balance(), old(self).peak(), trade) is Some,
            ok ==> final(self).trades() == keep_last(old(self).trades().push(trade), history_limit())
                && final(self).equity() == keep_last(
                old(self).equity().push(equity_point_after(old(self).balance(), old(self).peak(), trade)->0),
                history_limit(),
            ) && final(self).balance() == balance_after(old(self).balance(), trade)->0 && final(self).peak()
                == peak_after(old(self).peak(), balance_after(old(self).balance(), trade)->0)
                && final(self).initial() == old(self).initial(),
            !ok ==> *final(self) == *old(self),
    {
        let delta = match checked_sub(&trade.pnl, &trade.fees) {
            Some(d) => d,
            None => return false,
        };
        let balance = match checked_add(&self.current_balance, &delta) {
            Some(b) => b,
            None => return false,
        };
        let peak = if dec_lt(&self.peak_balance, &balance) {
            balance
        } else {
            self.peak_balance
        };
        let drawdown = match checked_sub(&peak, &balance) {
            Some(d) => d,
            None => return false,
        };
        let zero = dec_from_i64(0);
        let percent = if dec_lt(&zero, &peak) {
            match checked_div(&drawdown, &peak) {
                Some(q) => match checked_mul(&q, &dec_from_i64(100)) {
                    Some(p) => p,
                    None => return false,
                },
                None => return false,
            }
        } else {
            zero
        };
        self.current_balance = balance;
        self.peak_balance = peak;
        self.equity_curve.push(
            EquityPoint { timestamp: trade.exit_time, balance, drawdown, drawdown_percent: percent },
        );
        self.trades.push(trade);
        if self.trades.len() > self.max_trades {
            self.trades.remove(0);
        }
        if self.equity_curve.len() > self.max_trades {
            self.equity_curve.remove(0);
        }
        proof {
            let t0 = old(self).trades().push(trade);
            if t0.len() > history_limit() {
                assert(self.trades@ =~= t0.skip(t0.len() - history_limit()));
            }
            let e0 = old(self).equity().push(equity_point_after(old(self).balance(), old(self).peak(), trade)->0);
            if e0.len() > history_limit() {
                assert(self.equity_curve@ =~= e0.skip(e0.len() - history_limit()));
            }
        }
        true
    }

    /// Records a completed trade: the balance moves by its P&L less its
    /// fees, the peak follows the balance up, and an equity point with the
    /// drawdown from the peak is added; only the last 1000 trades and
    /// points are kept.
    pub fn record_trade(&mut self, trade: CompletedTrade)
        requires
            old(self).wf(),
            equity_point_after(old(self).balance(), old(self).peak(), trade) is Some,
        ensures
            final(self).wf(),
            final(self).trades() == keep_last(old(self).trades().push(trade), history_limit()),
            final(self).equity() == keep_last(
                old(self).equity().push(equity_point_after(old(self).balance(), old(self).peak(), trade)->0),
                history_limit(),
            ),
            final(self).balance() == balance_after(old(self).balance(), trade)->0,
            final(self).peak() == peak_after(old(self).peak(), balance_after(old(self).balance(), trade)->0),
            final(self).initial() == old(self).initial(),
    {
        self.try_record_trade(trade);
    }

    /// The statistics of the kept trades, `None` where a computation overflows.
    pub fn try_calculate_stats(&self) -> (r: Option<PerformanceStats>)
        requires
            self.wf(),
        ensures
            r == stats_of(self.trades(), self.equity()),
    {
        stats_for(&self.trades, &self.equity_curve)
    }

    /// The statistics of the kept trades.
    pub fn calculate_stats(&self) -> (r: PerformanceStats)
        requires
            self.wf(),
            stats_of(self.trades(), self.equity()) is Some,
        ensures
            Some(r) == stats_of(self.trades(), self.equity()),
    {
        stats_for(&self.trades, &self.equity_curve).unwrap()
    }

    /// The equity curve, oldest first.
    pub fn get_equity_curve(&self) -> (r: Vec<EquityPoint>)
        ensures
            r@ == self.equity(),
    {
        let mut out: Vec<EquityPoint> = Vec::new();
        let mut i: usize = 0;
        while i < self.equity_curve.len()
            invariant
                i <= self.equity_curve@.len(),
                out@ == self.equity_curve@.take(i as int),
            decreases self.equity_curve@.len() - i,
        {
            out.push(self.equity_curve[i]);
            assert(out@ =~= self.equity_curve@.take(i + 1));
            i = i + 1;
        }
        assert(self.equity_curve@.take(i as int) =~= self.equity_curve@);
        out
    }

    /// The most recent trades, newest first, at most `count`.
    pub fn get_recent_trades(&self, count: usize) -> (r: Vec<CompletedTrade>)
        ensures
            r@.len() == if count < self.trades().len() { count as nat } else { self.trades().len() },
            forall|i: int| 0 <= i < r@.len() ==> r@[i] == self.trades()[self.trades().len() - 1 - i],
    {
        let mut out: Vec<CompletedTrade> = Vec::new();
        let n = self.trades.len();
        let mut i: usize = 0;
        while i < count && i < n
            invariant
                n == self.trades@.len(),
                i <= n,
                i <= count,
                out@.len() == i,
                forall|j: int| 0 <= j < i ==> out@[j] == self.trades@[n - 1 - j],
            decreases n - i,
        {
            out.push(self.trades[n - 1 - i].copy());
            i = i + 1;
        }
        out
    }

    /// The balance now.
    pub fn current_balance(&self) -> (b: Decimal)
        ensures
            b == self.balance(),
    {
        self.current_balance
    }

    /// The drawdown now (peak less balance), `None` on overflow.
    pub fn try_current_drawdown(&self) -> (r: Option<Decimal>)
        ensures
            r == dec_sub(self.peak(), self.balance()),
    {
        if checked_sub(&self.peak_balance, &self.current_balance).is_some() {
            Some(self.current_drawdown())
        } else {
            None
        }
    }

    /// The drawdown now (peak less balance).
    pub fn current_drawdown(&self) -> (r: Decimal)
        requires
            dec_sub(self.peak(), self.balance()) is Some,
        ensures
            Some(r) == dec_sub(self.peak(), self.balance()),
    {
        checked_sub(&self.peak_balance, &self.current_balance).unwrap()
    }

    /// The drawdown in percent of the peak, computed with checked arithmetic.
    fn checked_drawdown_percent(&self) -> (r: Option<Decimal>)
        ensures
            r == (if units(self.peak()) > 0 {
                match dec_sub(self.peak(), self.balance()) {
                    Some(dd) => drawdown_percent_of(dd, self.peak()),
                    None => None,
                }
            } else {
                Some(zero())
            }),
    {
        let zero = dec_from_i64(0);
        if dec_lt(&zero, &self.peak_balance) {
            match checked_sub(&self.peak_balance, &self.current_balance) {
                Some(dd) => match checked_div(&dd, &self.peak_balance) {
                    Some(q) => checked_mul(&q, &dec_from_i64(100)),
                    None => None,
                },
                None => None,
            }
        } else {
            Some(zero)
        }
    }

    /// The drawdown now in percent of the peak (zero for a peak not above
    /// zero), `None` on overflow.
    pub fn try_current_drawdown_percent(&self) -> (r: Option<Decimal>)
        ensures
            r == (if units(self.peak()) > 0 {
                match dec_sub(self.peak(), self.balance()) {
                    Some(dd) => drawdown_percent_of(dd, self.peak()),
                    None => None,
                }
            } else {
                Some(zero())
            }),
    {
        if self.checked_drawdown_percent().is_some() {
            Some(self.current_drawdown_percent())
        } else {
            None
        }
    }

    /// The drawdown now in percent of the peak.
    pub fn current_drawdown_percent(&self) -> (r: Decimal)
        requires
            (if units(self.peak()) > 0 {
                match dec_sub(self.peak(), self.balance()) {
                    Some(dd) => drawdown_percent_of(dd, self.peak()),
                    None => None,
                }
            } else {
                Some(zero())
            }) is Some,
        ensures
            Some(r) == (if units(self.peak()) > 0 {
                match dec_sub(self.peak(), self.balance()) {
                    Some(dd) => drawdown_percent_of(dd, self.peak()),
                    None => None,
                }
            } else {
                Some(zero())
            }),
    {
        self.checked_drawdown_percent().unwrap()
    }

    /// Clears the trades and the curve and starts again from a balance.
    pub fn reset(&mut self, initial_balance: Decimal)
        requires
            old(self).wf(),
        ensures
            final(self).wf(),
            final(self).trades() == Seq::<CompletedTrade>::empty(),
            final(self).equity() == Seq::<EquityPoint>::empty(),
            final(self).initial() == initial_balance,
            final(self).balance() == initial_balance,
            final(self).peak() == initial_balance,
    {
        self.trades.clear();
        self.equity_curve.clear();
        self.initial_balance = initial_balance;
        self.current_balance = initial_balance;
        self.peak_balance = initial_balance;
    }
}

impl Default for PerformanceTracker {
    fn default() -> (t: Self)
        ensures
            t.wf(),
            t.trades() == Seq::<CompletedTrade>::empty(),
            t.equity() == Seq::<EquityPoint>::empty(),
            t.initial() == dec_of_int(10000),
            t.balance() == dec_of_int(10000),
            t.peak() == dec_of_int(10000),
    {
        PerformanceTracker::new(dec_from_i64(10000))
    }
}

/// Every trade is either a winner or a loser, so the two counts of the
/// statistics add up to the number of trades.
pub proof fn law_trade_counts_add_up(ts: Seq<CompletedTrade>, eq: Seq<EquityPoint>)
    requires
        ts.len() <= history_limit(),
        stats_of(ts, eq) is Some,
    ensures
        stats_of(ts, eq)->0.winning_trades + stats_of(ts, eq)->0.losing_trades == stats_of(ts, eq)->0.total_trades,
{
    lemma_split_counts(ts);
}

/// After a trade the peak is at least the new balance and at least the old
/// peak: the peak never falls and never lies below the balance.
pub proof fn law_peak_bounds_balance(peak: Decimal, balance: Decimal, t: CompletedTrade)
    requires
        balance_after(balance, t) is Some,
    ensures
        units(peak_after(peak, balance_after(balance, t)->0)) >= units(balance_after(balance, t)->0),
        units(peak_after(peak, balance_after(balance, t)->0)) >= units(peak),
{
}

/// The trade just recorded is the newest one kept.
pub proof fn law_newest_trade_kept(trades: Seq<CompletedTrade>, t: CompletedTrade)
    ensures
        keep_last(trades.push(t), history_limit()).len() > 0,
        keep_last(trades.push(t), history_limit()).last() == t,
        keep_last(trades.push(t), history_limit()).len() <= history_limit(),
{
}

} // verus!
