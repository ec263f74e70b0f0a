use vstd::prelude::*;
use vstd::arithmetic::div_mod::{
    lemma_div_pos_is_pos, lemma_fundamental_div_mod, lemma_fundamental_div_mod_converse,
    lemma_mod_bound,
};
use vstd::arithmetic::mul::lemma_mul_inequality;

verus! {

/// How many update steps one frame releases: the accumulated lag plus the
/// frame's elapsed time, divided by the update period, truncated at the
/// configured per-frame maximum when there is one.
pub open spec fn spec_frame_updates(lag: int, elapsed: int, period: int, cap: Option<u64>) -> int
    recommends
        period > 0,
{
    let full = (lag + elapsed) / period;
    match cap {
        Option::Some(c) => if full <= c { full } else { c as int },
        Option::None => full,
    }
}

/// The lag left after one frame's drain: whatever of `lag + elapsed` the
/// released update steps did not consume.
pub open spec fn spec_frame_lag(lag: int, elapsed: int, period: int, cap: Option<u64>) -> int
    recommends
        period > 0,
{
    lag + elapsed - spec_frame_updates(lag, elapsed, period, cap) * period
}

/// Law: one frame's drain never releases a negative step count and never
/// leaves a negative lag; without a cap the remaining lag is strictly below
/// the update period, so the interpolation fraction `lag / period` lies in
/// [0, 1). The same strict bound holds under a cap whenever the cap was not
/// reached.
pub proof fn lemma_frame_drain_bounds(lag: int, elapsed: int, period: int, cap: Option<u64>)
    requires
        period > 0,
        lag >= 0,
        elapsed >= 0,
    ensures
        0 <= spec_frame_updates(lag, elapsed, period, cap),
        0 <= spec_frame_lag(lag, elapsed, period, cap),
        cap is None ==> spec_frame_lag(lag, elapsed, period, cap) < period,
        cap matches Some(c) && spec_frame_updates(lag, elapsed, period, cap) < c
            ==> spec_frame_lag(lag, elapsed, period, cap) < period,
{
    let total = lag + elapsed;
    let full = total / period;
    lemma_fundamental_div_mod(total, period);
    lemma_mod_bound(total, period);
    lemma_div_pos_is_pos(total, period);
    assert(full * period == period * full) by (nonlinear_arith);
    match cap {
        Option::None => {
            assert(spec_frame_lag(lag, elapsed, period, cap) == total % period);
        },
        Option::Some(c) => {
            if full <= c {
                assert(spec_frame_lag(lag, elapsed, period, cap) == total % period);
            } else {
                lemma_mul_inequality(c as int, full, period);
                assert((c as int) * period <= full * period);
            }
        },
    }
}

/// Law: a frame whose elapsed time is zero, entered with the lag a completed
/// drain leaves (below one period), releases no update steps and keeps the
/// lag — and with it the interpolation fraction — unchanged.
pub proof fn lemma_zero_elapsed_frame(lag: int, period: int, cap: Option<u64>)
    requires
        period > 0,
        0 <= lag < period,
    ensures
        spec_frame_updates(lag, 0, period, cap) == 0,
        spec_frame_lag(lag, 0, period, cap) == lag,
{
    lemma_fundamental_div_mod_converse(lag, period, 0, lag);
}

/// A fixed-timestep accumulator: it converts variable frame times into a
/// deterministic number of fixed-size simulation steps per frame.
///
/// Durations are plain `u64` tick counts; the caller picks the unit
/// (nanoseconds, milliseconds, ...) and must use it consistently.
#[derive(Clone, Copy, Debug, PartialEq, Eq, Structural)]
pub struct FixedTimestep {
    period: u64,
    max_updates: Option<u64>,
    lag: u64,
}

impl FixedTimestep {
    /// The configured update period, in ticks.
    pub closed spec fn spec_period(self) -> u64 {
        self.period
    }

    /// The configured per-frame cap on catch-up updates, if any.
    pub closed spec fn spec_max_updates(self) -> Option<u64> {
        self.max_updates
    }

    /// The accumulated simulation time, in ticks, not yet turned into steps.
    pub closed spec fn spec_lag(self) -> u64 {
        self.lag
    }

    /// A driver is well formed when its update period is positive.
    pub open spec fn wf(self) -> bool {
        self.spec_period() > 0
    }

    /// Creates a driver with the given update period and no cap on the number
    /// of catch-up updates a single frame may release.
    pub fn new(period: u64) -> (t: Self)
        requires
            period > 0,
        ensures
            t.wf(),
            t.spec_period() == period,
            t.spec_max_updates() is None,
            t.spec_lag() == 0,
    {
        FixedTimestep { period, max_updates: None, lag: 0 }
    }

    /// Creates a driver that releases at most `max_updates` update steps per
    /// frame, so a long stall degrades to bounded catch-up work instead of an
    /// arbitrarily long burst of updates.
    pub fn with_max_updates(period: u64, max_updates: u64) -> (t: Self)
        requires
            period > 0,
        ensures
            t.wf(),
            t.spec_period() == period,
            t.spec_max_updates() == Some(max_updates),
            t.spec_lag() == 0,
    {
        FixedTimestep { period, max_updates: Some(max_updates), lag: 0 }
    }

    /// The configured update period, in ticks.
    pub fn period(&self) -> (r: u64)
        ensures
            r == self.spec_period(),
    {
        self.period
    }

    /// The configured per-frame cap on catch-up updates, if any.
    pub fn max_updates(&self) -> (r: Option<u64>)
        ensures
            r == self.spec_max_updates(),
    {
        self.max_updates
    }

    /// The accumulated lag, in ticks.
    pub fn lag(&self) -> (r: u64)
        ensures
            r == self.spec_lag(),
    {
        self.lag
    }

    /// Runs one frame of the driver: adds the frame's elapsed time to the lag
    /// and drains the lag in whole update periods. Returns how many update
    /// steps the caller must now run; each one advances the simulation by
    /// exactly one period.
    ///
    /// Without a cap the remaining lag is always strictly below the period;
    /// with a cap the count never exceeds the cap, and the lag keeps whatever
    /// the withheld steps would have consumed.
    pub fn advance(&mut self, elapsed: u64) -> (updates: u64)
        requires
            old(self).wf(),
            old(self).spec_lag() + elapsed <= u64::MAX,
        ensures
            final(self).wf(),
            final(self).spec_period() == old(self).spec_period(),
            final(self).spec_max_updates() == old(self).spec_max_updates(),
            updates == spec_frame_updates(
                old(self).spec_lag() as int,
                elapsed as int,
                old(self).spec_period() as int,
                old(self).spec_max_updates(),
            ),
            final(self).spec_lag() == spec_frame_lag(
                old(self).spec_lag() as int,
                elapsed as int,
                old(self).spec_period() as int,
                old(self).spec_max_updates(),
            ),
            old(self).spec_max_updates() is None
                ==> final(self).spec_lag() < old(self).spec_period(),
    {
        let period: u64 = self.period;
        let mut lag: u64 = self.lag + elapsed;
        let ghost total: int = lag as int;
        let mut updates: u64 = 0;
        match self.max_updates {
            None => {
                while lag >= period
                    invariant
                        period > 0,
                        total <= u64::MAX,
                        updates * period + lag == total,
                    decreases lag,
                {
                    proof {
                        lemma_step_count_fits(updates as int, period as int, lag as int, total);
                    }
                    lag = lag - period;
                    updates = updates + 1;
                }
                proof {
                    lemma_fundamental_div_mod_converse(
                        total,
                        period as int,
                        updates as int,
                        lag as int,
                    );
                }
            },
            Some(c) => {
                while lag >= period && updates < c
                    invariant
                        period > 0,
                        total <= u64::MAX,
                        updates * period + lag == total,
                        updates <= c,
                    decreases lag,
                {
                    proof {
                        lemma_step_count_fits(updates as int, period as int, lag as int, total);
                    }
                    lag = lag - period;
                    updates = updates + 1;
                }
                proof {
                    if lag < period {
                        lemma_fundamental_div_mod_converse(
                            total,
                            period as int,
                            updates as int,
                            lag as int,
                        );
                    } else {
                        lemma_fundamental_div_mod(total, period as int);
                        lemma_mod_bound(total, period as int);
                        let full = total / (period as int);
                        let rem = total % (period as int);
                        assert(full > c) by (nonlinear_arith)
                            requires
                                total == (period as int) * full + rem,
                                total == (c as int) * (period as int) + (lag as int),
                                lag >= period,
                                0 <= rem < period,
                                period > 0,
                        ;
                    }
                }
            },
        }
        self.lag = lag;
        updates
    }
}

/// The interpolation fraction `lag / period` as an exact ratio, so the
/// renderer can place the picture between the last two simulation states.
#[derive(Clone, Copy, Debug, PartialEq, Eq, Structural)]
pub struct Alpha {
    /// The lag the fraction was taken from, in ticks.
    pub numer: u64,
    /// The update period, in ticks.
    pub denom: u64,
}

impl Alpha {
    /// The fraction lies in [0, 1): the numerator is strictly below the
    /// denominator.
    pub open spec fn in_unit_range(self) -> bool {
        self.numer < self.denom
    }
}

impl FixedTimestep {
    /// The fraction of one update period left in the lag. After an uncapped
    /// `advance` it always lies in [0, 1).
    pub fn alpha(&self) -> (a: Alpha)
        ensures
            a.numer == self.spec_lag(),
            a.denom == self.spec_period(),
            self.spec_lag() < self.spec_period() ==> a.in_unit_range(),
    {
        Alpha { numer: self.lag, denom: self.period }
    }
}

/// One more counted step still fits in a `u64` while the invariant
/// `updates * period + lag == total` holds and a whole period remains in the
/// lag.
proof fn lemma_step_count_fits(updates: int, period: int, lag: int, total: int)
    requires
        period > 0,
        updates >= 0,
        lag >= period,
        total <= u64::MAX,
        updates * period + lag == total,
    ensures
        updates + 1 <= u64::MAX,
        (updates + 1) * period + (lag - period) == total,
{
    assert((updates + 1) * period == updates * period + period) by (nonlinear_arith);
    assert(updates + 1 <= (updates + 1) * period) by (nonlinear_arith)
        requires
            period >= 1,
            updates >= 0,
    ;
}

} // verus!
