//! Kraken's tier-based rate limiting.
//!
//! - Starter: 15 counter, decays 0.33/sec
//! - Intermediate: 20 counter, decays 0.5/sec
//! - Pro: 20 counter, decays 1.0/sec
//!
//! Decay rates are kept exactly, in hundredths of a point per second.

use crate::clock::{elapsed_micros, instant_now};
use std::time::Instant;
use vstd::prelude::*;

verus! {

/// Kraken account tier for rate limiting.
#[derive(Debug, Clone, Copy, PartialEq, Eq, Structural)]
pub enum AccountTier {
    Starter,
    Intermediate,
    Pro,
}

/// The counter limit of a tier.
pub open spec fn tier_max(t: AccountTier) -> u32 {
    match t {
        AccountTier::Starter => 15,
        AccountTier::Intermediate | AccountTier::Pro => 20,
    }
}

/// The decay of a tier, in hundredths of a counter point per second.
pub open spec fn tier_decay_centis(t: AccountTier) -> u32 {
    match t {
        AccountTier::Starter => 33,
        AccountTier::Intermediate => 50,
        AccountTier::Pro => 100,
    }
}

impl AccountTier {
    /// Maximum counter value for this tier.
    pub fn max_counter(&self) -> (m: u32)
        ensures
            m == tier_max(*self),
    {
        match self {
            AccountTier::Starter => 15,
            AccountTier::Intermediate | AccountTier::Pro => 20,
        }
    }

    /// Counter decay rate, in hundredths of a point per second
    /// (0.33, 0.5 and 1.0 points per second).
    pub fn decay_rate_centis(&self) -> (r: u32)
        ensures
            r == tier_decay_centis(*self),
    {
        match self {
            AccountTier::Starter => 33,
            AccountTier::Intermediate => 50,
            AccountTier::Pro => 100,
        }
    }
}

impl Default for AccountTier {
    fn default() -> (t: Self)
        ensures
            t == AccountTier::Starter,
    {
        AccountTier::Starter
    }
}

/// API endpoint categories with different costs.
#[derive(Debug, Clone, Copy, PartialEq, Eq, Structural)]
pub enum EndpointCost {
    /// Ledger/trade history queries (2 points)
    Ledger,
    /// Add/cancel order (0 points, but matching engine limits apply)
    Order,
    /// Standard queries (1 point)
    Standard,
}

/// The counter points an endpoint costs.
pub open spec fn cost_of(c: EndpointCost) -> u32 {
    match c {
        EndpointCost::Ledger => 2,
        EndpointCost::Order => 0,
        EndpointCost::Standard => 1,
    }
}

impl EndpointCost {
    /// The counter points this endpoint costs.
    pub fn cost(&self) -> (n: u32)
        ensures
            n == cost_of(*self),
    {
        match self {
            EndpointCost::Ledger => 2,
            EndpointCost::Order => 0,
            EndpointCost::Standard => 1,
        }
    }
}

/// Decay is applied at most every this many microseconds.
pub const MIN_DECAY_INTERVAL_MICROS: u64 = 100_000;

/// Length of the matching-engine window, in microseconds.
pub const ORDER_WINDOW_MICROS: u64 = 1_000_000;

/// Orders allowed per matching-engine window.
pub const MAX_ORDERS_PER_WINDOW: u32 = 1;

/// Whole counter points decayed after `elapsed` microseconds, capped to `u32`.
pub open spec fn decay_points(t: AccountTier, elapsed: u64) -> u32 {
    let d = elapsed * (tier_decay_centis(t) as int) / 100_000_000;
    if d > u32::MAX {
        u32::MAX
    } else {
        d as u32
    }
}

/// The counter after decay, and whether the decay was applied.
pub open spec fn decay_result(counter: u32, t: AccountTier, elapsed: u64) -> (u32, bool) {
    if elapsed < MIN_DECAY_INTERVAL_MICROS || decay_points(t, elapsed) == 0 {
        (counter, false)
    } else if decay_points(t, elapsed) >= counter {
        (0, true)
    } else {
        ((counter - decay_points(t, elapsed)) as u32, true)
    }
}

/// Microseconds to wait until `needed` points fit under the tier's limit, with a
/// tenth of a second of margin; zero when they fit already.
pub open spec fn wait_micros(counter: u32, t: AccountTier, needed: u32) -> u64 {
    let room = if needed >= tier_max(t) { 0 } else { tier_max(t) - needed };
    let excess = if counter <= room { 0 } else { counter - room };
    if excess == 0 {
        0
    } else {
        (excess * 100_000_000 / (tier_decay_centis(t) as int) + 100_000) as u64
    }
}

/// The counter after decaying for `elapsed` microseconds, and whether decay applied.
pub fn decayed(counter: u32, tier: AccountTier, elapsed: u64) -> (r: (u32, bool))
    ensures
        r == decay_result(counter, tier, elapsed),
{
    if elapsed < MIN_DECAY_INTERVAL_MICROS {
        return (counter, false);
    }
    let rate = tier.decay_rate_centis() as u128;
    let d128 = (elapsed as u128) * rate / 100_000_000u128;
    let d: u32 = if d128 > u32::MAX as u128 {
        u32::MAX
    } else {
        d128 as u32
    };
    if d == 0 {
        (counter, false)
    } else if d >= counter {
        (0, true)
    } else {
        (counter - d, true)
    }
}

/// Microseconds to wait until `needed` points fit under the tier's limit.
pub fn time_until_available(counter: u32, tier: AccountTier, needed: u32) -> (w: u64)
    ensures
        w == wait_micros(counter, tier, needed),
{
    let max = tier.max_counter();
    let room = if needed >= max { 0 } else { max - needed };
    let excess = if counter <= room { 0 } else { counter - room };
    if excess == 0 {
        0
    } else {
        let rate = tier.decay_rate_centis() as u64;
        (excess as u64) * 100_000_000 / rate + 100_000
    }
}

/// Rate limiter for Kraken API requests.
pub struct RateLimiter {
    tier: AccountTier,
    counter: u32,
    last_update: Instant,
    order_counter: u32,
    last_order_reset: Instant,
}

impl RateLimiter {
    /// The counter as last stored (before any pending decay).
    pub closed spec fn points(&self) -> u32 {
        self.counter
    }

    /// Orders placed in the current matching-engine window.
    pub closed spec fn orders(&self) -> u32 {
        self.order_counter
    }

    /// The counter never exceeds the tier's limit.
    pub closed spec fn wf(&self) -> bool {
        self.counter <= tier_max(self.tier)
    }

    /// The account tier.
    pub closed spec fn tier_of(&self) -> AccountTier {
        self.tier
    }

    /// The counter of a well-formed limiter never exceeds its tier's limit.
    pub proof fn lemma_points_bounded(&self)
        requires
            self.wf(),
        ensures
            self.points() <= tier_max(self.tier_of()),
    {
    }

    /// Create a new rate limiter for the given account tier, with nothing spent.
    pub fn new(tier: AccountTier) -> (r: Self)
        ensures
            r.wf(),
            r.tier_of() == tier,
            r.points() == 0,
            r.orders() == 0,
    {
        RateLimiter {
            tier,
            counter: 0,
            last_update: instant_now(),
            order_counter: 0,
            last_order_reset: instant_now(),
        }
    }

    /// The account tier.
    pub fn tier(&self) -> (t: AccountTier)
        ensures
            t == self.tier_of(),
    {
        self.tier
    }

    /// Apply decay for the time elapsed since the last decay.
    fn apply_decay(&mut self)
        requires
            old(self).wf(),
        ensures
            final(self).wf(),
            final(self).tier_of() == old(self).tier_of(),
            final(self).orders() == old(self).orders(),
            exists|e: u64| final(self).points() == #[trigger] decay_result(old(self).points(), old(self).tier_of(), e).0,
    {
        let e = elapsed_micros(&self.last_update);
        let (c, applied) = decayed(self.counter, self.tier, e);
        if applied {
            self.counter = c;
            self.last_update = instant_now();
        }
        assert(self.points() == decay_result(old(self).points(), old(self).tier_of(), e).0);
    }

    /// Current counter value after applying decay.
    pub fn current_counter(&mut self) -> (n: u32)
        requires
            old(self).wf(),
        ensures
            final(self).wf(),
            n == final(self).points(),
            final(self).tier_of() == old(self).tier_of(),
            final(self).orders() == old(self).orders(),
            exists|e: u64| n == #[trigger] decay_result(old(self).points(), old(self).tier_of(), e).0,
    {
        self.apply_decay();
        self.counter
    }

    /// Remaining capacity before hitting the limit.
    pub fn remaining(&mut self) -> (n: u32)
        requires
            old(self).wf(),
        ensures
            final(self).wf(),
            n == if final(self).points() >= tier_max(final(self).tier_of()) {
                0
            } else {
                tier_max(final(self).tier_of()) - final(self).points()
            },
            final(self).points() <= tier_max(final(self).tier_of()),
            final(self).tier_of() == old(self).tier_of(),
            final(self).orders() == old(self).orders(),
            exists|e: u64| final(self).points() == #[trigger] decay_result(old(self).points(), old(self).tier_of(), e).0,
    {
        let c = self.current_counter();
        let max = self.tier.max_counter();
        if c >= max {
            0
        } else {
            max - c
        }
    }

    /// The limiter's figures after decay: the tier, the counter, the tier's
    /// limit, the capacity left, and the decay rate in hundredths of a point
    /// per second.
    pub fn stats(&mut self) -> (st: RateLimitStats)
        requires
            old(self).wf(),
        ensures
            final(self).wf(),
            final(self).tier_of() == old(self).tier_of(),
            final(self).orders() == old(self).orders(),
            exists|e: u64| final(self).points() == #[trigger] decay_result(old(self).points(), old(self).tier_of(), e).0,
            st.tier == old(self).tier_of(),
            st.current_counter == final(self).points(),
            st.max_counter == tier_max(old(self).tier_of()),
            st.remaining == tier_max(old(self).tier_of()) - final(self).points(),
            st.decay_rate_centis == tier_decay_centis(old(self).tier_of()),
    {
        let current_counter = self.current_counter();
        let max_counter = self.tier.max_counter();
        RateLimitStats {
            tier: self.tier,
            current_counter,
            max_counter,
            remaining: max_counter - current_counter,
            decay_rate_centis: self.tier.decay_rate_centis(),
        }
    }

    /// Whether a request of the given cost can be made without blocking.
    pub fn can_request(&mut self, cost: EndpointCost) -> (b: bool)
        requires
            old(self).wf(),
        ensures
            final(self).wf(),
            b == (final(self).points() + cost_of(cost) <= tier_max(final(self).tier_of())),
            final(self).points() <= tier_max(final(self).tier_of()),
            final(self).tier_of() == old(self).tier_of(),
            final(self).orders() == old(self).orders(),
            exists|e: u64| final(self).points() == #[trigger] decay_result(old(self).points(), old(self).tier_of(), e).0,
    {
        let r = self.remaining();
        r >= cost.cost()
    }

    /// One attempt at acquiring capacity for a request of the given cost.
    ///
    /// Order placement goes through the matching-engine window instead of the
    /// counter. Otherwise, after decay, the request is admitted when its cost
    /// fits under the tier's limit, and the counter goes up by the cost; if not,
    /// the error says how many microseconds to wait before trying again.
    pub fn try_acquire(&mut self, cost: EndpointCost) -> (r: Result<(), u64>)
        requires
            old(self).wf(),
        ensures
            final(self).wf(),
            final(self).tier_of() == old(self).tier_of(),
            cost == EndpointCost::Order ==> final(self).points() == old(self).points(),
            cost != EndpointCost::Order ==> {
                &&& final(self).orders() == old(self).orders()
                &&& exists|e: u64| {
                    let d = #[trigger] decay_result(old(self).points(), old(self).tier_of(), e).0;
                    match r {
                        Ok(_) => d + cost_of(cost) <= tier_max(old(self).tier_of())
                            && final(self).points() == d + cost_of(cost),
                        Err(w) => d + cost_of(cost) > tier_max(old(self).tier_of())
                            && final(self).points() == d && w == wait_micros(
                            d,
                            old(self).tier_of(),
                            cost_of(cost),
                        ),
                    }
                }
            },
            cost == EndpointCost::Order ==> match r {
                Ok(_) => final(self).orders() <= MAX_ORDERS_PER_WINDOW,
                Err(w) => final(self).orders() >= MAX_ORDERS_PER_WINDOW && w <= ORDER_WINDOW_MICROS,
            },
    {
        if cost == EndpointCost::Order {
            return self.try_acquire_order_slot();
        }
        let cost_value = cost.cost();
        self.apply_decay();
        let current = self.counter;
        let max = self.tier.max_counter();
        if current as u64 + cost_value as u64 <= max as u64 {
            self.counter = current + cost_value;
            Ok(())
        } else {
            Err(time_until_available(current, self.tier, cost_value))
        }
    }

    /// One attempt at an order slot of the matching-engine window: the window
    /// restarts after a second; a slot is granted while fewer than the allowed
    /// orders went through, else the error gives the microseconds left in the window.
    fn try_acquire_order_slot(&mut self) -> (r: Result<(), u64>)
        requires
            old(self).wf(),
        ensures
            final(self).wf(),
            final(self).tier_of() == old(self).tier_of(),
            final(self).points() == old(self).points(),
            match r {
                Ok(_) => final(self).orders() <= MAX_ORDERS_PER_WINDOW,
                Err(w) => final(self).orders() >= MAX_ORDERS_PER_WINDOW && w <= ORDER_WINDOW_MICROS,
            },
    {
        let mut e = elapsed_micros(&self.last_order_reset);
        if e >= ORDER_WINDOW_MICROS {
            self.order_counter = 0;
            self.last_order_reset = instant_now();
            e = 0;
        }
        if self.order_counter < MAX_ORDERS_PER_WINDOW {
            self.order_counter = self.order_counter + 1;
            Ok(())
        } else {
            Err(ORDER_WINDOW_MICROS - e)
        }
    }
}

impl Default for RateLimiter {
    fn default() -> (r: Self)
        ensures
            r.wf(),
            r.tier_of() == AccountTier::Starter,
            r.points() == 0,
    {
        RateLimiter::new(AccountTier::Starter)
    }
}

/// Decay never raises the counter, and a full second of Pro decay takes off a point.
pub proof fn law_decay_never_raises(counter: u32, t: AccountTier, elapsed: u64)
    ensures
        decay_result(counter, t, elapsed).0 <= counter,
        t == AccountTier::Pro && elapsed >= 1_000_000 && counter > 0 ==> decay_result(counter, t, elapsed).0 < counter,
{
    if t == AccountTier::Pro && elapsed >= 1_000_000 {
        assert(elapsed * 100 / 100_000_000 >= 1) by (nonlinear_arith)
            requires
                elapsed >= 1_000_000,
        {
        }
    }
}

/// Waiting the time returned by `wait_micros` is enough for the decay to make room.
pub proof fn law_wait_makes_room(counter: u32, t: AccountTier, needed: u32)
    requires
        needed <= tier_max(t),
        wait_micros(counter, t, needed) > 0,
    ensures
        decay_result(counter, t, wait_micros(counter, t, needed)).0 + needed <= tier_max(t),
{
    let w = wait_micros(counter, t, needed);
    let room = tier_max(t) - needed;
    let excess = counter - room;
    let c = tier_decay_centis(t) as int;
    assert(w == excess * 100_000_000 / c + 100_000);
    assert(w * c >= excess * 100_000_000) by (nonlinear_arith)
        requires
            w == excess * 100_000_000 / c + 100_000,
            c > 0,
            excess > 0,
    {
    }
    assert(w * c / 100_000_000 >= excess) by (nonlinear_arith)
        requires
            w * c >= excess * 100_000_000,
    {
    }
}

/// Rate limiter figures.
#[derive(Debug, Clone, Copy)]
pub struct RateLimitStats {
    pub tier: AccountTier,
    pub current_counter: u32,
    pub max_counter: u32,
    pub remaining: u32,
    /// Hundredths of a point per second
    pub decay_rate_centis: u32,
}

} // verus!
