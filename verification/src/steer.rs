//! Player steering: discrete control signals become a per-tick force and
//! torque along the ship's current frame, both normalized-or-zero and then
//! scaled by fixed magnitudes.  Trail visibility follows the forward-thrust
//! control alone and is recomputed every tick.

use vstd::prelude::*;
use crate::FP_UNIT;
use crate::norm::{normalize_or_zero, spec_normalize_or_zero};
use crate::vec3::Vec3Fix;

verus! {

pub const THRUST_FORCE: i64 = 600;

pub const ROTATION_TORQUE: i64 = 200;

/// The discrete control states read each tick.
#[derive(Clone, Copy, PartialEq, Eq, Structural, Debug, Default)]
pub struct Controls {
    pub thrust_forward: bool,
    pub thrust_back: bool,
    pub pitch_up: bool,
    pub pitch_down: bool,
    pub yaw_left: bool,
    pub yaw_right: bool,
    pub roll_left: bool,
    pub roll_right: bool,
    pub fire: bool,
}

/// The ship's orientation frame, as fixed-point unit directions supplied by
/// the physics world each tick.
#[derive(Clone, Copy, PartialEq, Eq, Structural, Debug)]
pub struct Frame {
    pub forward: Vec3Fix,
    pub right: Vec3Fix,
    pub up: Vec3Fix,
}

impl Frame {
    pub open spec fn wf(self) -> bool {
        &&& self.forward.bounded(FP_UNIT as int)
        &&& self.right.bounded(FP_UNIT as int)
        &&& self.up.bounded(FP_UNIT as int)
    }
}

/// What steering writes back each tick.
#[derive(Clone, Copy, PartialEq, Eq, Structural, Debug)]
pub struct SteerOutput {
    pub force: Vec3Fix,
    pub torque: Vec3Fix,
    pub trail_visible: bool,
}

/// Sum of the active linear-thrust contributions: forward thrust pushes
/// along `-forward`, backward thrust along `+forward`.
pub open spec fn spec_linear_sum(c: Controls, f: Frame) -> Vec3Fix {
    Vec3Fix {
        x: (term(c.thrust_forward, -(f.forward.x as int)) + term(
            c.thrust_back,
            f.forward.x as int,
        )) as i64,
        y: (term(c.thrust_forward, -(f.forward.y as int)) + term(
            c.thrust_back,
            f.forward.y as int,
        )) as i64,
        z: (term(c.thrust_forward, -(f.forward.z as int)) + term(
            c.thrust_back,
            f.forward.z as int,
        )) as i64,
    }
}

/// Sum of the active angular contributions: pitch along `+/-right`, yaw
/// along `+/-up`, roll along `+/-forward`.
pub open spec fn spec_angular_sum(c: Controls, f: Frame) -> Vec3Fix {
    Vec3Fix {
        x: (term(c.pitch_up, f.right.x as int) + term(c.pitch_down, -f.right.x as int) + term(
            c.yaw_left,
            f.up.x as int,
        ) + term(c.yaw_right, -f.up.x as int) + term(c.roll_left, f.forward.x as int) + term(
            c.roll_right,
            -f.forward.x as int,
        )) as i64,
        y: (term(c.pitch_up, f.right.y as int) + term(c.pitch_down, -f.right.y as int) + term(
            c.yaw_left,
            f.up.y as int,
        ) + term(c.yaw_right, -f.up.y as int) + term(c.roll_left, f.forward.y as int) + term(
            c.roll_right,
            -f.forward.y as int,
        )) as i64,
        z: (term(c.pitch_up, f.right.z as int) + term(c.pitch_down, -f.right.z as int) + term(
            c.yaw_left,
            f.up.z as int,
        ) + term(c.yaw_right, -f.up.z as int) + term(c.roll_left, f.forward.z as int) + term(
            c.roll_right,
            -f.forward.z as int,
        )) as i64,
    }
}

pub open spec fn term(active: bool, v: int) -> int {
    if active {
        v
    } else {
        0
    }
}

/// The contribution of one control signal: `v` while held, else zero.
fn signal(active: bool, v: i64) -> (r: i64)
    requires
        -1000 <= v <= 1000,
    ensures
        r == term(active, v as int),
{
    if active {
        v
    } else {
        0
    }
}

/// One steering update: the exact force and torque written to the physics
/// world this tick, and whether the thrust trail is shown.
pub fn control_spaceship(c: Controls, f: Frame) -> (out: SteerOutput)
    requires
        f.wf(),
    ensures
        out.trail_visible == c.thrust_forward,
        out.force == spec_normalize_or_zero(spec_linear_sum(c, f)).spec_scale_unit(
            THRUST_FORCE as int,
        ),
        out.torque == spec_normalize_or_zero(spec_angular_sum(c, f)).spec_scale_unit(
            ROTATION_TORQUE as int,
        ),
{
    let linear = linear_sum(c, f);
    let angular = angular_sum(c, f);
    let force = normalize_or_zero(linear).scale_unit(THRUST_FORCE);
    let torque = normalize_or_zero(angular).scale_unit(ROTATION_TORQUE);
    SteerOutput { force, torque, trail_visible: c.thrust_forward }
}

fn linear_sum(c: Controls, f: Frame) -> (r: Vec3Fix)
    requires
        f.wf(),
    ensures
        r == spec_linear_sum(c, f),
        r.bounded(2000),
{
    let linear = Vec3Fix {
        x: signal(c.thrust_forward, -f.forward.x) + signal(c.thrust_back, f.forward.x),
        y: signal(c.thrust_forward, -f.forward.y) + signal(c.thrust_back, f.forward.y),
        z: signal(c.thrust_forward, -f.forward.z) + signal(c.thrust_back, f.forward.z),
    };
    assert(linear == spec_linear_sum(c, f));
    linear
}

#[verifier::rlimit(100)]
fn angular_sum(c: Controls, f: Frame) -> (r: Vec3Fix)
    requires
        f.wf(),
    ensures
        r == spec_angular_sum(c, f),
        r.bounded(6000),
{
    let angular = Vec3Fix {
        x: signal(c.pitch_up, f.right.x) + signal(c.pitch_down, -f.right.x) + signal(
            c.yaw_left,
            f.up.x,
        ) + signal(c.yaw_right, -f.up.x) + signal(c.roll_left, f.forward.x) + signal(
            c.roll_right,
            -f.forward.x,
        ),
        y: signal(c.pitch_up, f.right.y) + signal(c.pitch_down, -f.right.y) + signal(
            c.yaw_left,
            f.up.y,
        ) + signal(c.yaw_right, -f.up.y) + signal(c.roll_left, f.forward.y) + signal(
            c.roll_right,
            -f.forward.y,
        ),
        z: signal(c.pitch_up, f.right.z) + signal(c.pitch_down, -f.right.z) + signal(
            c.yaw_left,
            f.up.z,
        ) + signal(c.yaw_right, -f.up.z) + signal(c.roll_left, f.forward.z) + signal(
            c.roll_right,
            -f.forward.z,
        ),
    };
    assert(angular == spec_angular_sum(c, f));
    angular
}

} // verus!
