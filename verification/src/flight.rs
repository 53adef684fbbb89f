//! Autonomous random-walk locomotion.
//!
//! Each entity with a `RandomFlight` keeps a current direction and a
//! repeating retarget timer.  The direction is resampled exactly when the
//! timer completes a period and is stable otherwise; a constant-magnitude
//! force along the current direction is applied every tick.

use vstd::prelude::*;
use crate::FP_UNIT;
use crate::norm::{
    is_unit_fp, normalize_or_zero, MIN_DIR_NORM_SQ,
};
use crate::rng::rand_range_i64;
use crate::timer::{Timer, TimerMode};
use crate::vec3::Vec3Fix;

verus! {

/// Magnitude of the wandering force applied along the current direction.
pub const FLIGHT_FORCE: i64 = 200;

#[derive(Clone, Copy, PartialEq, Eq, Structural, Debug)]
pub struct RandomFlight {
    pub direction: Vec3Fix,
    pub timer: Timer,
}

impl RandomFlight {
    /// The direction is either still the zero placeholder it may start
    /// from, or a near-unit fixed-point direction.
    pub open spec fn wf(self) -> bool {
        &&& self.timer.wf()
        &&& self.timer.mode is Repeating
        &&& self.direction.bounded(FP_UNIT as int)
        &&& (self.direction == (Vec3Fix { x: 0, y: 0, z: 0 }) || is_unit_fp(self.direction))
    }

    pub fn new(direction: Vec3Fix, retarget_period_ms: u64) -> (r: RandomFlight)
        requires
            retarget_period_ms >= 1,
            direction.bounded(FP_UNIT as int),
            direction == (Vec3Fix { x: 0, y: 0, z: 0 }) || is_unit_fp(direction),
        ensures
            r.wf(),
            r.direction == direction,
            r.timer.period_ms == retarget_period_ms,
            r.timer.elapsed_ms == 0,
    {
        RandomFlight { direction, timer: Timer::new(retarget_period_ms, TimerMode::Repeating) }
    }

    /// Advance the retarget timer; resample the direction exactly when it
    /// completes, and return the wandering force along the (possibly new)
    /// direction.
    pub fn tick(&mut self, delta_ms: u64) -> (force: Vec3Fix)
        requires
            old(self).wf(),
            delta_ms <= u64::MAX - old(self).timer.period_ms,
        ensures
            final(self).wf(),
            final(self).timer == Timer::spec_tick(old(self).timer, delta_ms),
            final(self).timer.spec_just_finished() ==> is_unit_fp(final(self).direction),
            !final(self).timer.spec_just_finished() ==> final(self).direction == old(
                self,
            ).direction,
            force == final(self).direction.spec_scale_unit(FLIGHT_FORCE as int),
    {
        self.timer.tick(delta_ms);
        if self.timer.just_finished() {
            self.direction = sample_unit_direction();
        }
        self.direction.scale_unit(FLIGHT_FORCE)
    }
}

/// Draw a uniform direction: independent uniform samples per axis, then
/// fixed-point renormalization.  The rare sample too short for the grid to
/// resolve falls back to a fixed axis direction.
pub fn sample_unit_direction() -> (d: Vec3Fix)
    ensures
        is_unit_fp(d),
        d.bounded(FP_UNIT as int),
{
    let v = Vec3Fix {
        x: rand_range_i64(-FP_UNIT, FP_UNIT),
        y: rand_range_i64(-FP_UNIT, FP_UNIT),
        z: rand_range_i64(-FP_UNIT, FP_UNIT),
    };
    let ax: i64 = if v.x >= 0 {
        v.x
    } else {
        -v.x
    };
    let ay: i64 = if v.y >= 0 {
        v.y
    } else {
        -v.y
    };
    let az: i64 = if v.z >= 0 {
        v.z
    } else {
        -v.z
    };
    proof {
        assert(ax * ax == v.x * v.x && ay * ay == v.y * v.y && az * az == v.z * v.z)
            by (nonlinear_arith)
            requires
                ax == if v.x >= 0 {
                    v.x as int
                } else {
                    -v.x as int
                },
                ay == if v.y >= 0 {
                    v.y as int
                } else {
                    -v.y as int
                },
                az == if v.z >= 0 {
                    v.z as int
                } else {
                    -v.z as int
                },
        ;
        assert(ax * ax <= 1_000_000 && ay * ay <= 1_000_000 && az * az <= 1_000_000)
            by (nonlinear_arith)
            requires
                0 <= ax <= 1000,
                0 <= ay <= 1000,
                0 <= az <= 1000,
        ;
    }
    let q: i64 = ax * ax + ay * ay + az * az;
    if q < MIN_DIR_NORM_SQ {
        Vec3Fix { x: FP_UNIT, y: 0, z: 0 }
    } else {
        normalize_or_zero(v)
    }
}

} // verus!
