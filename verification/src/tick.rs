//! Fixed tick scheduler for the deterministic simulation.
//!
//! The simulation runs at a fixed tick rate (default 20 Hz) independent
//! of frame rate: the driving loop outside the core decides how often to
//! invoke `advance`, but once invoked, exactly one tick of simulated time
//! has elapsed. No wall clock is ever read here. Durations are expressed
//! in whole milliseconds so that no floating-point rounding can differ
//! between platforms.

use vstd::prelude::*;

verus! {

/// Configuration for the tick system.
#[derive(Clone, Copy, PartialEq, Eq, Structural, Debug)]
pub struct TickConfig {
    /// Ticks per second.
    pub tick_rate: u32,
}

impl Default for TickConfig {
    fn default() -> (r: Self)
        ensures
            r.tick_rate == 20,
    {
        TickConfig { tick_rate: 20 }
    }
}

/// Tracks the current simulation tick. The counter starts at 0, moves
/// only through `advance`, and each `advance` moves it by exactly 1;
/// this scheduler is the sole authority for "what tick is it".
pub struct TickScheduler {
    /// Current tick number.
    pub current_tick: u64,
    /// Ticks per second.
    pub tick_rate: u32,
}

/// `ticks` converted to milliseconds at `rate` ticks per second,
/// truncated to whole milliseconds.
pub open spec fn ticks_to_millis_spec(ticks: u32, rate: u32) -> int
    recommends
        rate >= 1,
{
    ticks * 1000 / rate as int
}

/// `millis` converted to ticks at `rate` ticks per second, rounded to
/// the nearest whole tick.
pub open spec fn millis_to_ticks_spec(millis: u64, rate: u32) -> int
    recommends
        rate >= 1,
{
    (millis * rate + 500) / 1000
}

impl TickScheduler {
    pub fn new(tick_rate: u32) -> (r: Self)
        requires
            tick_rate >= 1,
        ensures
            r.current_tick == 0,
            r.tick_rate == tick_rate,
    {
        TickScheduler { current_tick: 0, tick_rate }
    }

    /// Advance to the next tick: the counter moves by exactly 1, never
    /// skipped, never more.
    pub fn advance(&mut self)
        requires
            old(self).current_tick < u64::MAX,
        ensures
            final(self).current_tick == old(self).current_tick + 1,
            final(self).tick_rate == old(self).tick_rate,
    {
        self.current_tick = self.current_tick + 1;
    }

    /// Get the current tick.
    pub fn tick(&self) -> (r: u64)
        ensures
            r == self.current_tick,
    {
        self.current_tick
    }

    /// Convert a tick count to milliseconds of simulated time.
    pub fn ticks_to_millis(&self, ticks: u32) -> (r: u64)
        requires
            self.tick_rate >= 1,
        ensures
            r == ticks_to_millis_spec(ticks, self.tick_rate),
    {
        (ticks as u64) * 1000 / (self.tick_rate as u64)
    }

    /// Convert milliseconds of simulated time to ticks (rounded to the
    /// nearest tick).
    pub fn millis_to_ticks(&self, millis: u64) -> (r: u32)
        requires
            self.tick_rate >= 1,
            millis_to_ticks_spec(millis, self.tick_rate) <= u32::MAX,
        ensures
            r == millis_to_ticks_spec(millis, self.tick_rate),
    {
        let wide = (millis as u128) * (self.tick_rate as u128);
        ((wide + 500) / 1000) as u32
    }
}

impl Default for TickScheduler {
    fn default() -> (r: Self)
        ensures
            r.current_tick == 0,
            r.tick_rate == 20,
    {
        TickScheduler::new(20)
    }
}

/// The two unit conversions are consistent inverses: at a rate that
/// divides 1000 evenly (such as the default 20 Hz, where 20 ticks are
/// 1000 ms), converting ticks to milliseconds and back returns the
/// original tick count.
pub proof fn lemma_tick_conversion_round_trip(ticks: u32, rate: u32)
    requires
        1 <= rate <= 1000,
        1000int % (rate as int) == 0,
    ensures
        millis_to_ticks_spec((ticks_to_millis_spec(ticks, rate)) as u64, rate) == ticks,
{
    let per_tick: int = 1000int / rate as int;
    assert(per_tick * rate == 1000) by (nonlinear_arith)
        requires
            1 <= rate <= 1000,
            1000int % (rate as int) == 0,
            per_tick == 1000int / rate as int,
    ;
    assert(ticks * 1000 == (ticks * per_tick) * rate) by (nonlinear_arith)
        requires
            per_tick * rate == 1000,
    ;
    assert(ticks_to_millis_spec(ticks, rate) == ticks * per_tick) by (nonlinear_arith)
        requires
            rate >= 1,
            ticks * 1000 == (ticks * per_tick) * rate,
    ;
    let ms = ticks * per_tick;
    assert(ms * rate == ticks * 1000) by (nonlinear_arith)
        requires
            per_tick * rate == 1000,
            ms == ticks * per_tick,
    ;
    assert((ticks * 1000 + 500) / 1000 == ticks);
}

} // verus!
