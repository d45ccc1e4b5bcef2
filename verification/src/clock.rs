//! Virtual time, and the dividers that derive the machine's two rates
//! from it.
//!
//! Time is exact: a clock counts its ticks, and the time it shows is that
//! count divided by its rate. A divider multiplies before it divides, so
//! that no rounding error builds up however long the clock runs.

use vstd::prelude::*;
use vstd::arithmetic::div_mod::{lemma_div_pos_is_pos, lemma_fundamental_div_mod};

verus! {

/// Instructions executed per second.
pub const CLOCK_CPU: u64 = 500;

/// Timer decrements per second.
pub const CLOCK_TIMER: u64 = 60;

/// A point in virtual time: `ticks / rate` seconds after the start.
#[derive(Clone, Copy, Debug, PartialEq, Eq)]
pub struct Time {
    /// Ticks counted since the start.
    pub ticks: u64,
    /// Ticks per second.
    pub rate: u64,
}

impl Time {
    /// Whether the time is defined: a clock that tells it ticks at all.
    pub open spec fn wf(self) -> bool {
        self.rate > 0
    }

    /// The time in seconds, times `self.rate * other.rate`, to compare two
    /// times without dividing.
    pub open spec fn scaled(self, other: Time) -> int {
        self.ticks * other.rate
    }

    /// Whether this time is not later than `other`.
    pub open spec fn not_after(self, other: Time) -> bool {
        self.scaled(other) <= other.scaled(self)
    }

    /// The whole cycles of a signal of `rate` Hz that fit in this time:
    /// the time in seconds times `rate`, rounded down.
    pub open spec fn cycles(self, rate: u64) -> int {
        (self.ticks * rate) / (self.rate as int)
    }
}

/// A cycle count as a divider holds it: counts that do not fit in 64 bits
/// stay at the largest that does.
pub open spec fn saturate(cycles: int) -> u64 {
    if cycles > u64::MAX {
        u64::MAX
    } else {
        cycles as u64
    }
}

/// A clock: it ticks `rate` times per second of virtual time.
#[derive(Clone, Copy, Debug, PartialEq, Eq)]
pub struct Clock {
    pub rate: u64,
    pub ticks: u64,
}

impl Clock {
    /// Whether the clock ticks at all.
    pub open spec fn wf(self) -> bool {
        self.rate > 0
    }

    /// A clock of the given rate, at time zero.
    pub fn new(rate: u64) -> (clock: Clock)
        requires
            rate > 0,
        ensures
            clock.rate == rate,
            clock.ticks == 0,
            clock.wf(),
    {
        Clock { rate, ticks: 0 }
    }

    /// The time that the clock shows.
    pub fn time(&self) -> (time: Time)
        ensures
            time == (Time { ticks: self.ticks, rate: self.rate }),
    {
        Time { ticks: self.ticks, rate: self.rate }
    }

    /// Advances the clock by one tick, that is by `1 / rate` seconds.
    pub fn tick(&mut self)
        requires
            old(self).ticks < u64::MAX,
        ensures
            final(self).ticks == old(self).ticks + 1,
            final(self).rate == old(self).rate,
    {
        self.ticks = self.ticks + 1;
    }

    /// Sets the clock back to time zero.
    pub fn reset(&mut self)
        ensures
            final(self).ticks == 0,
            final(self).rate == old(self).rate,
    {
        self.ticks = 0;
    }
}

/// Derives a slower or faster rate from virtual time: it counts the whole
/// cycles of its own rate that have passed.
#[derive(Clone, Copy, Debug, PartialEq, Eq)]
pub struct ClockDivider {
    pub rate: u64,
    pub cycles: u64,
}

impl ClockDivider {
    /// A divider of the given rate that has counted no cycle.
    pub fn new(rate: u64) -> (divider: ClockDivider)
        ensures
            divider.rate == rate,
            divider.cycles == 0,
    {
        ClockDivider { rate, cycles: 0 }
    }

    /// Sets the cycle count to what it is at `time` and returns whether
    /// that changed it. The count is computed from the time alone, never
    /// from the count before.
    pub fn tick(&mut self, time: Time) -> (advanced: bool)
        requires
            time.wf(),
        ensures
            final(self).rate == old(self).rate,
            final(self).cycles == saturate(time.cycles(old(self).rate)),
            advanced == (final(self).cycles != old(self).cycles),
    {
        let previous = self.cycles;
        assert(time.ticks * self.rate <= u128::MAX) by (nonlinear_arith)
            requires
                time.ticks <= u64::MAX,
                self.rate <= u64::MAX,
        ;
        let elapsed: u128 = (time.ticks as u128) * (self.rate as u128);
        let cycles: u128 = elapsed / (time.rate as u128);
        self.cycles = if cycles > u64::MAX as u128 {
            u64::MAX
        } else {
            cycles as u64
        };
        self.cycles != previous
    }
}

/// A later time has no lower cycle count: the cycle count never goes back
/// while time goes on.
pub proof fn lemma_cycles_monotonic(earlier: Time, later: Time, rate: u64)
    requires
        earlier.wf(),
        later.wf(),
        earlier.not_after(later),
    ensures
        earlier.cycles(rate) <= later.cycles(rate),
        saturate(earlier.cycles(rate)) <= saturate(later.cycles(rate)),
{
    let a = earlier.ticks as int;
    let b = earlier.rate as int;
    let c = later.ticks as int;
    let d = later.rate as int;
    let r = rate as int;
    let q = (a * r) / b;
    lemma_fundamental_div_mod(a * r, b);
    lemma_fundamental_div_mod(c * r, d);
    let q2 = (c * r) / d;
    // q * b <= a * r, and a * d <= c * b, hence q * d <= c * r < (q2 + 1) * d
    assert(q * d <= c * r) by (nonlinear_arith)
        requires
            b * q <= a * r,
            a * d <= c * b,
            b > 0,
            d > 0,
            r >= 0,
            a >= 0,
            c >= 0,
    {
        assert(b * q * d <= a * r * d);
        assert(a * d * r <= c * b * r);
        assert(b * (q * d) <= b * (c * r));
    }
    assert(q <= q2) by (nonlinear_arith)
        requires
            q * d <= c * r,
            c * r == d * q2 + (c * r) % d,
            0 <= (c * r) % d < d,
            d > 0,
    {
        assert(q * d < d * (q2 + 1));
    }
    assert(0 <= q) by {
        lemma_div_pos_is_pos(a * r, b);
    }
}

/// With the clock at 500 Hz, the 60 Hz timer divider counts a new cycle
/// every 8 or 9 ticks of the clock: any 9 ticks in a row hold at least one
/// new cycle, any 8 hold at most one.
pub proof fn lemma_timer_period(ticks: u64)
    requires
        ticks + 9 <= u64::MAX,
    ensures
        ({
            let now = Time { ticks, rate: CLOCK_CPU };
            let after_8 = Time { ticks: (ticks + 8) as u64, rate: CLOCK_CPU };
            let after_9 = Time { ticks: (ticks + 9) as u64, rate: CLOCK_CPU };
            &&& after_9.cycles(CLOCK_TIMER) > now.cycles(CLOCK_TIMER)
            &&& after_8.cycles(CLOCK_TIMER) <= now.cycles(CLOCK_TIMER) + 1
        }),
{
}

} // verus!
