use vstd::prelude::*;
use vstd::arithmetic::mul::lemma_mul_inequality;
use crate::timestep::{
    lemma_frame_drain_bounds, spec_frame_lag, spec_frame_updates, FixedTimestep,
};

verus! {

/// The sum of a sequence of elapsed-time samples, in ticks.
pub open spec fn spec_total_elapsed(samples: Seq<u64>) -> int
    decreases samples.len(),
{
    if samples.len() == 0 {
        0
    } else {
        spec_total_elapsed(samples.drop_last()) + samples.last()
    }
}

/// The lag a driver is left with after one frame per sample, starting from
/// lag `lag0`.
pub open spec fn spec_run_lag(lag0: int, period: int, cap: Option<u64>, samples: Seq<u64>) -> int
    decreases samples.len(),
{
    if samples.len() == 0 {
        lag0
    } else {
        spec_frame_lag(
            spec_run_lag(lag0, period, cap, samples.drop_last()),
            samples.last() as int,
            period,
            cap,
        )
    }
}

/// The total number of update steps the same run releases.
pub open spec fn spec_run_updates(
    lag0: int,
    period: int,
    cap: Option<u64>,
    samples: Seq<u64>,
) -> int
    decreases samples.len(),
{
    if samples.len() == 0 {
        0
    } else {
        spec_run_updates(lag0, period, cap, samples.drop_last()) + spec_frame_updates(
            spec_run_lag(lag0, period, cap, samples.drop_last()),
            samples.last() as int,
            period,
            cap,
        )
    }
}

/// The update-step count of each frame of the same run, in frame order.
pub open spec fn spec_frame_counts(
    lag0: int,
    period: int,
    cap: Option<u64>,
    samples: Seq<u64>,
) -> Seq<int>
    decreases samples.len(),
{
    if samples.len() == 0 {
        Seq::empty()
    } else {
        spec_frame_counts(lag0, period, cap, samples.drop_last()).push(
            spec_frame_updates(
                spec_run_lag(lag0, period, cap, samples.drop_last()),
                samples.last() as int,
                period,
                cap,
            ),
        )
    }
}

/// Law: simulated time is conserved. Over any run, the number of released
/// update steps times the period, plus the lag left at the end, equals the
/// starting lag plus the sum of the elapsed samples — no simulated time is
/// invented or lost. The step total and the final lag are also never
/// negative.
pub proof fn lemma_time_conservation(
    lag0: int,
    period: int,
    cap: Option<u64>,
    samples: Seq<u64>,
)
    requires
        period > 0,
        lag0 >= 0,
    ensures
        0 <= spec_run_updates(lag0, period, cap, samples),
        0 <= spec_run_lag(lag0, period, cap, samples),
        spec_run_updates(lag0, period, cap, samples) * period + spec_run_lag(
            lag0,
            period,
            cap,
            samples,
        ) == lag0 + spec_total_elapsed(samples),
    decreases samples.len(),
{
    if samples.len() == 0 {
        assert(0 * period == 0) by (nonlinear_arith);
    } else {
        let prefix = samples.drop_last();
        lemma_time_conservation(lag0, period, cap, prefix);
        let prev_updates = spec_run_updates(lag0, period, cap, prefix);
        let prev_lag = spec_run_lag(lag0, period, cap, prefix);
        let e = samples.last() as int;
        let u = spec_frame_updates(prev_lag, e, period, cap);
        lemma_frame_drain_bounds(prev_lag, e, period, cap);
        assert((prev_updates + u) * period == prev_updates * period + u * period)
            by (nonlinear_arith);
    }
}

/// Law: the drain invariant holds across whole runs. After any nonempty run
/// an uncapped driver's lag is strictly below the update period.
pub proof fn lemma_run_drain_invariant(lag0: int, period: int, samples: Seq<u64>)
    requires
        period > 0,
        lag0 >= 0,
        samples.len() > 0,
    ensures
        0 <= spec_run_lag(lag0, period, Option::None, samples) < period,
{
    lemma_time_conservation(lag0, period, Option::None, samples.drop_last());
    lemma_frame_drain_bounds(
        spec_run_lag(lag0, period, Option::None, samples.drop_last()),
        samples.last() as int,
        period,
        Option::None,
    );
}

/// Law: the driver is deterministic. The per-frame update counts are a
/// function of the starting lag, the period, the cap and the elapsed samples
/// alone, so replaying identical samples through an identically configured
/// driver reproduces the counts exactly.
pub proof fn lemma_deterministic_replay(
    lag0: int,
    period: int,
    cap: Option<u64>,
    a: Seq<u64>,
    b: Seq<u64>,
)
    requires
        a == b,
    ensures
        spec_frame_counts(lag0, period, cap, a) == spec_frame_counts(lag0, period, cap, b),
{
}

/// One more sample extends a prefix sum by exactly that sample.
proof fn lemma_prefix_elapsed_step(samples: Seq<u64>, i: int)
    requires
        0 <= i < samples.len(),
    ensures
        spec_total_elapsed(samples.take(i + 1)) == spec_total_elapsed(samples.take(i))
            + samples[i],
{
    assert(samples.take(i + 1).drop_last() =~= samples.take(i));
}

/// A prefix of the samples never sums to more than the whole sequence.
proof fn lemma_prefix_elapsed_bound(samples: Seq<u64>, i: int)
    requires
        0 <= i <= samples.len(),
    ensures
        spec_total_elapsed(samples.take(i)) <= spec_total_elapsed(samples),
    decreases samples.len() - i,
{
    if i == samples.len() {
        assert(samples.take(i) =~= samples);
    } else {
        lemma_prefix_elapsed_step(samples, i);
        lemma_prefix_elapsed_bound(samples, i + 1);
    }
}

impl FixedTimestep {
    /// Feeds every sample to `advance` in order, one frame per sample, and
    /// returns the total number of update steps released over the whole run.
    pub fn run_frames(&mut self, samples: &Vec<u64>) -> (total_updates: u64)
        requires
            old(self).wf(),
            old(self).spec_lag() + spec_total_elapsed(samples@) <= u64::MAX,
        ensures
            final(self).wf(),
            final(self).spec_period() == old(self).spec_period(),
            final(self).spec_max_updates() == old(self).spec_max_updates(),
            total_updates == spec_run_updates(
                old(self).spec_lag() as int,
                old(self).spec_period() as int,
                old(self).spec_max_updates(),
                samples@,
            ),
            final(self).spec_lag() == spec_run_lag(
                old(self).spec_lag() as int,
                old(self).spec_period() as int,
                old(self).spec_max_updates(),
                samples@,
            ),
    {
        let ghost orig: FixedTimestep = *self;
        let ghost lag0: int = orig.spec_lag() as int;
        let ghost p: int = orig.spec_period() as int;
        let ghost cap: Option<u64> = orig.spec_max_updates();
        let mut total: u64 = 0;
        let mut i: usize = 0;
        while i < samples.len()
            invariant
                i <= samples@.len(),
                self.wf(),
                self.spec_period() == orig.spec_period(),
                self.spec_max_updates() == orig.spec_max_updates(),
                orig.wf(),
                lag0 == orig.spec_lag() as int,
                p == orig.spec_period() as int,
                cap == orig.spec_max_updates(),
                lag0 + spec_total_elapsed(samples@) <= u64::MAX,
                total == spec_run_updates(lag0, p, cap, samples@.take(i as int)),
                self.spec_lag() == spec_run_lag(lag0, p, cap, samples@.take(i as int)),
            decreases samples@.len() - i,
        {
            proof {
                lemma_prefix_elapsed_step(samples@, i as int);
                lemma_prefix_elapsed_bound(samples@, i + 1);
                lemma_time_conservation(lag0, p, cap, samples@.take(i as int));
                lemma_time_conservation(lag0, p, cap, samples@.take(i + 1));
                assert(samples@.take(i + 1).drop_last() =~= samples@.take(i as int));
                let prev_updates = spec_run_updates(lag0, p, cap, samples@.take(i as int));
                let next_updates = spec_run_updates(lag0, p, cap, samples@.take(i + 1));
                assert(prev_updates * p >= 0) by (nonlinear_arith)
                    requires
                        prev_updates >= 0,
                        p > 0,
                ;
                assert(next_updates * p >= 0) by (nonlinear_arith)
                    requires
                        next_updates >= 0,
                        p > 0,
                ;
                assert(next_updates <= next_updates * p) by (nonlinear_arith)
                    requires
                        next_updates >= 0,
                        p >= 1,
                ;
            }
            let u = self.advance(samples[i]);
            total = total + u;
            i = i + 1;
        }
        proof {
            assert(samples@.take(i as int) =~= samples@);
        }
        total
    }
}

} // verus!
