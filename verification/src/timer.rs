//! A restartable countdown with a one-shot or repeating policy.
//!
//! Time is measured in integer milliseconds.  A repeating timer wraps its
//! accumulator at each period boundary, so excess time carries into the next
//! period and the long-run cadence stays accurate under variable tick
//! lengths.  A one-shot timer clamps at its period and is inert afterwards.

use vstd::prelude::*;
use vstd::arithmetic::div_mod::{
    lemma_add_mod_noop, lemma_fundamental_div_mod, lemma_mod_bound, lemma_div_pos_is_pos,
};

verus! {

#[derive(Clone, Copy, PartialEq, Eq, Structural, Debug)]
pub enum TimerMode {
    Once,
    Repeating,
}

/// `{elapsed, period, mode, completions_this_tick}` in milliseconds.
///
/// `completions_this_tick` records how many full periods were completed by
/// the most recent `tick` call; `just_finished` is its boolean shadow.
#[derive(Clone, Copy, PartialEq, Eq, Structural, Debug)]
pub struct Timer {
    pub period_ms: u64,
    pub elapsed_ms: u64,
    pub mode: TimerMode,
    pub completions_this_tick: u64,
}

impl Timer {
    /// Well-formedness: the period is positive and the accumulator is
    /// below (repeating) or at most (one-shot) the period.
    pub open spec fn wf(self) -> bool {
        &&& self.period_ms >= 1
        &&& (self.mode is Repeating ==> self.elapsed_ms < self.period_ms)
        &&& (self.mode is Once ==> self.elapsed_ms <= self.period_ms)
    }

    /// A one-shot timer that has completed is inert.
    pub open spec fn spec_is_inert(self) -> bool {
        self.mode is Once && self.elapsed_ms == self.period_ms
    }

    pub open spec fn spec_just_finished(self) -> bool {
        self.completions_this_tick > 0
    }

    /// The state after one `tick(delta)` call.
    pub open spec fn spec_tick(pre: Timer, delta: u64) -> Timer
        recommends
            pre.wf(),
    {
        match pre.mode {
            TimerMode::Repeating => (Timer {
                elapsed_ms: ((pre.elapsed_ms + delta) % (pre.period_ms as int)) as u64,
                completions_this_tick: ((pre.elapsed_ms + delta) / (pre.period_ms as int)) as u64,
                ..pre
            }),
            TimerMode::Once => {
                if pre.elapsed_ms == pre.period_ms {
                    (Timer { completions_this_tick: 0, ..pre })
                } else if pre.elapsed_ms + delta >= pre.period_ms {
                    (Timer { elapsed_ms: pre.period_ms, completions_this_tick: 1, ..pre })
                } else {
                    (Timer {
                        elapsed_ms: (pre.elapsed_ms + delta) as u64,
                        completions_this_tick: 0,
                        ..pre
                    })
                }
            },
        }
    }

    pub fn new(period_ms: u64, mode: TimerMode) -> (t: Timer)
        requires
            period_ms >= 1,
        ensures
            t.wf(),
            t.period_ms == period_ms,
            t.elapsed_ms == 0,
            t.mode == mode,
            !t.spec_just_finished(),
    {
        Timer { period_ms, elapsed_ms: 0, mode, completions_this_tick: 0 }
    }

    /// Advance the accumulator by `delta_ms`.  A zero delta completes no
    /// period and leaves the accumulator unchanged.
    pub fn tick(&mut self, delta_ms: u64)
        requires
            old(self).wf(),
            delta_ms <= u64::MAX - old(self).period_ms,
        ensures
            *final(self) == Timer::spec_tick(*old(self), delta_ms),
            final(self).wf(),
            final(self).period_ms == old(self).period_ms,
            final(self).mode == old(self).mode,
    {
        match self.mode {
            TimerMode::Repeating => {
                let total: u64 = self.elapsed_ms + delta_ms;
                self.completions_this_tick = total / self.period_ms;
                self.elapsed_ms = total % self.period_ms;
            },
            TimerMode::Once => {
                if self.elapsed_ms == self.period_ms {
                    self.completions_this_tick = 0;
                } else {
                    let total: u64 = self.elapsed_ms + delta_ms;
                    if total >= self.period_ms {
                        self.elapsed_ms = self.period_ms;
                        self.completions_this_tick = 1;
                    } else {
                        self.elapsed_ms = total;
                        self.completions_this_tick = 0;
                    }
                }
            },
        }
    }

    /// True only on a tick that completed at least one period.
    pub fn just_finished(&self) -> (r: bool)
        ensures
            r == self.spec_just_finished(),
    {
        self.completions_this_tick > 0
    }

    /// How many full periods the most recent tick completed.
    pub fn times_finished_this_tick(&self) -> (r: u64)
        ensures
            r == self.completions_this_tick,
    {
        self.completions_this_tick
    }

    /// Whether a one-shot timer has completed and is now inert.
    pub fn is_inert(&self) -> (r: bool)
        ensures
            r == self.spec_is_inert(),
    {
        match self.mode {
            TimerMode::Once => self.elapsed_ms == self.period_ms,
            TimerMode::Repeating => false,
        }
    }
}

/// One spec-level tick preserves well-formedness, period and mode.
pub proof fn lemma_spec_tick_wf(t: Timer, delta: u64)
    requires
        t.wf(),
        delta <= u64::MAX - t.period_ms,
    ensures
        Timer::spec_tick(t, delta).wf(),
        Timer::spec_tick(t, delta).period_ms == t.period_ms,
        Timer::spec_tick(t, delta).mode == t.mode,
{
    let p = t.period_ms as int;
    if t.mode is Repeating {
        lemma_mod_bound(t.elapsed_ms + delta, p);
    }
}

/// The timer obtained by ticking `t` through every delta of `deltas` in order.
pub open spec fn run_ticks(t: Timer, deltas: Seq<u64>) -> Timer
    decreases deltas.len(),
{
    if deltas.len() == 0 {
        t
    } else {
        run_ticks(Timer::spec_tick(t, deltas[0]), deltas.drop_first())
    }
}

/// Total number of period completions reported over a run.
pub open spec fn total_completions(t: Timer, deltas: Seq<u64>) -> int
    decreases deltas.len(),
{
    if deltas.len() == 0 {
        0
    } else {
        let t1 = Timer::spec_tick(t, deltas[0]);
        t1.completions_this_tick + total_completions(t1, deltas.drop_first())
    }
}

/// Number of ticks in a run on which `just_finished` was true.
pub open spec fn count_finished_ticks(t: Timer, deltas: Seq<u64>) -> int
    decreases deltas.len(),
{
    if deltas.len() == 0 {
        0
    } else {
        let t1 = Timer::spec_tick(t, deltas[0]);
        (if t1.spec_just_finished() { 1int } else { 0int }) + count_finished_ticks(
            t1,
            deltas.drop_first(),
        )
    }
}

pub open spec fn sum_deltas(deltas: Seq<u64>) -> int
    decreases deltas.len(),
{
    if deltas.len() == 0 {
        0
    } else {
        deltas[0] + sum_deltas(deltas.drop_first())
    }
}

/// Every delta leaves enough headroom that `elapsed + delta` fits in `u64`.
pub open spec fn deltas_fit(deltas: Seq<u64>, period_ms: u64) -> bool {
    forall|i: int| 0 <= i < deltas.len() ==> #[trigger] deltas[i] <= u64::MAX - period_ms
}

/// Repeating cadence: over any run of a repeating timer, the completions
/// reported sum to the number of full periods in the elapsed total, and the
/// accumulator ends at the remainder.
pub proof fn lemma_repeating_cadence(t: Timer, deltas: Seq<u64>)
    requires
        t.wf(),
        t.mode is Repeating,
        deltas_fit(deltas, t.period_ms),
    ensures
        total_completions(t, deltas) == (t.elapsed_ms + sum_deltas(deltas)) / (t.period_ms as int),
        run_ticks(t, deltas).elapsed_ms == (t.elapsed_ms + sum_deltas(deltas)) % (
        t.period_ms as int),
        run_ticks(t, deltas).wf(),
        run_ticks(t, deltas).mode is Repeating,
        run_ticks(t, deltas).period_ms == t.period_ms,
    decreases deltas.len(),
{
    let p = t.period_ms as int;
    if deltas.len() == 0 {
        vstd::arithmetic::div_mod::lemma_basic_div(t.elapsed_ms as int, p);
        vstd::arithmetic::div_mod::lemma_small_mod(t.elapsed_ms as nat, t.period_ms as nat);
    } else {
        let d = deltas[0] as int;
        let e = t.elapsed_ms as int;
        let t1 = Timer::spec_tick(t, deltas[0]);
        lemma_mod_bound(e + d, p);
        lemma_div_pos_is_pos(e + d, p);
        assert(t1.wf());
        lemma_repeating_cadence(t1, deltas.drop_first());
        let s = sum_deltas(deltas.drop_first());
        // (e + d) = p * q + r with r = t1.elapsed_ms, q = t1.completions_this_tick
        lemma_fundamental_div_mod(e + d, p);
        let q = (e + d) / p;
        let r = (e + d) % p;
        assert(e + d == p * q + r);
        // total from t1: (r + s) / p ; final elapsed: (r + s) % p
        // whole total: q + (r + s) / p == (e + d + s) / p
        assert((p * q + (r + s)) / p == q + (r + s) / p) by {
            vstd::arithmetic::div_mod::lemma_hoist_over_denominator(r + s, q, p as nat);
            vstd::arithmetic::mul::lemma_mul_is_commutative(q, p);
        }
        assert((p * q + (r + s)) % p == (r + s) % p) by {
            lemma_add_mod_noop(p * q, r + s, p);
            assert((p * q) % p == 0) by {
                vstd::arithmetic::div_mod::lemma_mod_multiples_basic(q, p);
            }
            assert(((r + s) % p) % p == (r + s) % p) by {
                lemma_mod_bound(r + s, p);
                vstd::arithmetic::div_mod::lemma_small_mod(((r + s) % p) as nat, p as nat);
            }
        }
        assert(e + d + s == p * q + (r + s));
        assert(sum_deltas(deltas) == d + s);
    }
}

/// In a run where every tick is at most one period long, the number of ticks
/// reporting `just_finished` equals the total number of completed periods.
pub proof fn lemma_repeating_finish_count(t: Timer, deltas: Seq<u64>)
    requires
        t.wf(),
        t.mode is Repeating,
        deltas_fit(deltas, t.period_ms),
        forall|i: int| 0 <= i < deltas.len() ==> #[trigger] deltas[i] <= t.period_ms,
    ensures
        count_finished_ticks(t, deltas) == total_completions(t, deltas),
    decreases deltas.len(),
{
    if deltas.len() != 0 {
        let p = t.period_ms as int;
        let e = t.elapsed_ms as int;
        let d = deltas[0] as int;
        let t1 = Timer::spec_tick(t, deltas[0]);
        lemma_mod_bound(e + d, p);
        lemma_div_pos_is_pos(e + d, p);
        lemma_fundamental_div_mod(e + d, p);
        // e < p and d <= p give e + d < 2p, so at most one completion
        assert((e + d) / p <= 1) by {
            if (e + d) / p >= 2 {
                assert(e + d == p * ((e + d) / p) + (e + d) % p);
                assert(p * ((e + d) / p) >= p * 2) by {
                    vstd::arithmetic::mul::lemma_mul_inequality(2, (e + d) / p, p);
                    vstd::arithmetic::mul::lemma_mul_is_commutative((e + d) / p, p);
                }
            }
        }
        assert(t1.wf());
        lemma_repeating_finish_count(t1, deltas.drop_first());
    }
}

/// One-shot policy: over the whole lifetime of a `Once` timer,
/// `just_finished` is true on at most one tick, and never again once the
/// timer has become inert.
pub proof fn lemma_once_at_most_one_finish(t: Timer, deltas: Seq<u64>)
    requires
        t.wf(),
        t.mode is Once,
        deltas_fit(deltas, t.period_ms),
    ensures
        count_finished_ticks(t, deltas) <= 1,
        t.spec_is_inert() ==> count_finished_ticks(t, deltas) == 0,
        run_ticks(t, deltas).wf(),
        run_ticks(t, deltas).mode is Once,
        run_ticks(t, deltas).period_ms == t.period_ms,
    decreases deltas.len(),
{
    if deltas.len() != 0 {
        let t1 = Timer::spec_tick(t, deltas[0]);
        assert(t1.wf());
        lemma_once_at_most_one_finish(t1, deltas.drop_first());
    }
}

} // verus!
