//! Integer 3-vectors for poses, velocities and forces.
//!
//! Positions use whole world units.  Direction vectors are fixed-point: a
//! unit direction has Euclidean norm close to `FP_UNIT` (see `norm`).
//! Squared distances are computed in `i128`, which cannot overflow for
//! coordinates within `COORD_LIMIT`.

use vstd::prelude::*;
use crate::FP_UNIT;

verus! {

/// Largest coordinate magnitude the arena admits.
pub const COORD_LIMIT: i64 = 1_000_000_000;

#[derive(Clone, Copy, PartialEq, Eq, Structural, Debug)]
pub struct Vec3Fix {
    pub x: i64,
    pub y: i64,
    pub z: i64,
}

/// Truncating division (rounds toward zero), for a positive divisor.
pub open spec fn tdiv(a: int, d: int) -> int
    recommends
        d > 0,
{
    if a >= 0 {
        a / d
    } else {
        -((-a) / d)
    }
}

impl Vec3Fix {
    pub open spec fn norm_sq(self) -> int {
        self.x * self.x + self.y * self.y + self.z * self.z
    }

    pub open spec fn bounded(self, b: int) -> bool {
        &&& -b <= self.x <= b
        &&& -b <= self.y <= b
        &&& -b <= self.z <= b
    }

    pub open spec fn spec_add(self, o: Vec3Fix) -> Vec3Fix {
        Vec3Fix { x: (self.x + o.x) as i64, y: (self.y + o.y) as i64, z: (self.z + o.z) as i64 }
    }

    pub open spec fn spec_sub(self, o: Vec3Fix) -> Vec3Fix {
        Vec3Fix { x: (self.x - o.x) as i64, y: (self.y - o.y) as i64, z: (self.z - o.z) as i64 }
    }

    /// Componentwise `v * m / FP_UNIT`, truncating toward zero: scales a
    /// fixed-point direction by a plain magnitude.
    pub open spec fn spec_scale_unit(self, m: int) -> Vec3Fix {
        Vec3Fix {
            x: tdiv(self.x * m, FP_UNIT as int) as i64,
            y: tdiv(self.y * m, FP_UNIT as int) as i64,
            z: tdiv(self.z * m, FP_UNIT as int) as i64,
        }
    }

    /// Componentwise sum, clamped to the arena's coordinate bounds.
    pub open spec fn spec_add_clamped(self, o: Vec3Fix) -> Vec3Fix {
        Vec3Fix {
            x: clamp_coord(self.x + o.x) as i64,
            y: clamp_coord(self.y + o.y) as i64,
            z: clamp_coord(self.z + o.z) as i64,
        }
    }

    pub open spec fn spec_dist_sq(self, o: Vec3Fix) -> int {
        (self.x - o.x) * (self.x - o.x) + (self.y - o.y) * (self.y - o.y) + (self.z - o.z) * (
        self.z - o.z)
    }

    pub fn zero() -> (r: Vec3Fix)
        ensures
            r == (Vec3Fix { x: 0, y: 0, z: 0 }),
    {
        Vec3Fix { x: 0, y: 0, z: 0 }
    }

    pub fn new(x: i64, y: i64, z: i64) -> (r: Vec3Fix)
        ensures
            r == (Vec3Fix { x, y, z }),
    {
        Vec3Fix { x, y, z }
    }

    pub fn add(self, o: Vec3Fix) -> (r: Vec3Fix)
        requires
            i64::MIN <= self.x + o.x <= i64::MAX,
            i64::MIN <= self.y + o.y <= i64::MAX,
            i64::MIN <= self.z + o.z <= i64::MAX,
        ensures
            r == self.spec_add(o),
    {
        Vec3Fix { x: self.x + o.x, y: self.y + o.y, z: self.z + o.z }
    }

    pub fn sub(self, o: Vec3Fix) -> (r: Vec3Fix)
        requires
            i64::MIN <= self.x - o.x <= i64::MAX,
            i64::MIN <= self.y - o.y <= i64::MAX,
            i64::MIN <= self.z - o.z <= i64::MAX,
        ensures
            r == self.spec_sub(o),
    {
        Vec3Fix { x: self.x - o.x, y: self.y - o.y, z: self.z - o.z }
    }

    /// Squared Euclidean distance, exact in `i128`.
    pub fn dist_sq(self, o: Vec3Fix) -> (r: i128)
        requires
            self.bounded(COORD_LIMIT as int),
            o.bounded(COORD_LIMIT as int),
        ensures
            r == self.spec_dist_sq(o),
    {
        let dx: i128 = self.x as i128 - o.x as i128;
        let dy: i128 = self.y as i128 - o.y as i128;
        let dz: i128 = self.z as i128 - o.z as i128;
        proof {
            assert(dx * dx <= 0x10000000000000000000i128 && dx * dx >= 0) by (nonlinear_arith)
                requires
                    -2_000_000_000 <= dx <= 2_000_000_000,
            ;
            assert(dy * dy <= 0x10000000000000000000i128 && dy * dy >= 0) by (nonlinear_arith)
                requires
                    -2_000_000_000 <= dy <= 2_000_000_000,
            ;
            assert(dz * dz <= 0x10000000000000000000i128 && dz * dz >= 0) by (nonlinear_arith)
                requires
                    -2_000_000_000 <= dz <= 2_000_000_000,
            ;
        }
        dx * dx + dy * dy + dz * dz
    }

    /// Scale a fixed-point direction by `m`, dividing out `FP_UNIT`.
    pub fn scale_unit(self, m: i64) -> (r: Vec3Fix)
        requires
            self.bounded(1_100_000),
            -1_000_000 <= m <= 1_000_000,
        ensures
            r == self.spec_scale_unit(m as int),
    {
        Vec3Fix {
            x: mul_div_unit(self.x, m),
            y: mul_div_unit(self.y, m),
            z: mul_div_unit(self.z, m),
        }
    }
}

/// Clamp a coordinate into the arena bounds.
pub open spec fn clamp_coord(a: int) -> int {
    if a < -COORD_LIMIT {
        -COORD_LIMIT as int
    } else if a > COORD_LIMIT {
        COORD_LIMIT as int
    } else {
        a
    }
}

impl Vec3Fix {
    /// Sum of two vectors, clamped into the arena bounds: positions never
    /// leave the finite play volume the arena models.
    pub fn add_clamped(self, o: Vec3Fix) -> (r: Vec3Fix)
        ensures
            r == self.spec_add_clamped(o),
            r.bounded(COORD_LIMIT as int),
    {
        Vec3Fix {
            x: clamp_exec(self.x as i128 + o.x as i128),
            y: clamp_exec(self.y as i128 + o.y as i128),
            z: clamp_exec(self.z as i128 + o.z as i128),
        }
    }
}

fn clamp_exec(a: i128) -> (r: i64)
    ensures
        r == clamp_coord(a as int),
{
    if a < -(COORD_LIMIT as i128) {
        -COORD_LIMIT
    } else if a > COORD_LIMIT as i128 {
        COORD_LIMIT
    } else {
        a as i64
    }
}

/// `a * m / FP_UNIT`, truncating toward zero.
pub fn mul_div_unit(a: i64, m: i64) -> (r: i64)
    requires
        -1_100_000 <= a <= 1_100_000,
        -1_000_000 <= m <= 1_000_000,
    ensures
        r == tdiv(a * m, FP_UNIT as int),
{
    let ua: u64 = if a >= 0 {
        a as u64
    } else {
        (-a) as u64
    };
    let um: u64 = if m >= 0 {
        m as u64
    } else {
        (-m) as u64
    };
    proof {
        assert(ua * um <= 1_100_000_000_000u64 * 1_000_000) by (nonlinear_arith)
            requires
                0 <= ua <= 1_100_000,
                0 <= um <= 1_000_000,
        ;
    }
    let q: u64 = (ua * um) / (FP_UNIT as u64);
    let negative: bool = (a < 0) != (m < 0) && a != 0 && m != 0;
    proof {
        let p = a * m;
        assert(ua * um == if p >= 0 {
            p
        } else {
            -p
        }) by (nonlinear_arith)
            requires
                ua == if a >= 0 {
                    a as int
                } else {
                    -a as int
                },
                um == if m >= 0 {
                    m as int
                } else {
                    -m as int
                },
                p == a * m,
        ;
        assert((p < 0) == ((a < 0) != (m < 0) && a != 0 && m != 0)) by (nonlinear_arith)
            requires
                p == a * m,
        ;
        vstd::arithmetic::div_mod::lemma_div_pos_is_pos(ua as int * um as int, FP_UNIT as int);
        vstd::arithmetic::div_mod::lemma_div_nonincreasing(ua as int * um as int, FP_UNIT as int);
    }
    if negative {
        -(q as i64)
    } else {
        q as i64
    }
}

} // verus!
