//! Fixed-point vector normalization.
//!
//! `normalize_or_zero` maps an integer vector to a direction of norm close
//! to `FP_UNIT`, or to zero when the input is zero.  The main theorem,
//! `lemma_normalized_near_unit`, bounds the squared norm of every
//! normalized vector, provided the input is long enough for the fixed-point
//! grid to resolve its direction.

use vstd::prelude::*;
use crate::FP_UNIT;
use crate::vec3::{Vec3Fix, tdiv};

verus! {

/// Inputs to `normalize_or_zero` must be within this bound per component.
pub const DIR_IN_LIMIT: i64 = 1_000_000;

/// Inputs with squared norm at least this resolve to a near-unit direction.
pub const MIN_DIR_NORM_SQ: i64 = 10_000;

/// Bounds of the squared norm of a normalized vector: `FP_UNIT * FP_UNIT`
/// up to rounding, a little under 1.1% relative tolerance on the norm.
pub const UNIT_NORM_SQ_LO: i64 = 995_000;

pub const UNIT_NORM_SQ_HI: i64 = 1_021_000;

/// Largest `r` with `r * r <= q`.
pub open spec fn sqrt_floor(q: nat) -> nat
    decreases q,
{
    if q == 0 {
        0
    } else {
        let r = sqrt_floor((q - 1) as nat);
        if (r + 1) * (r + 1) <= q {
            r + 1
        } else {
            r
        }
    }
}

pub proof fn lemma_sqrt_floor_bracket(q: nat)
    ensures
        sqrt_floor(q) * sqrt_floor(q) <= q,
        q < (sqrt_floor(q) + 1) * (sqrt_floor(q) + 1),
    decreases q,
{
    let s = sqrt_floor(q);
    if q == 0 {
        assert(s == 0);
        assert(s * s <= q && q < (s + 1) * (s + 1)) by (nonlinear_arith)
            requires
                s == 0,
                q == 0,
        ;
    } else {
        lemma_sqrt_floor_bracket((q - 1) as nat);
        let r = sqrt_floor((q - 1) as nat);
        assert(r * r <= q - 1);
        assert(q - 1 < (r + 1) * (r + 1));
        if (r + 1) * (r + 1) <= q {
            assert(s == r + 1);
            assert(s * s <= q && q < (s + 1) * (s + 1)) by (nonlinear_arith)
                requires
                    s == r + 1,
                    (r + 1) * (r + 1) <= q <= (r + 1) * (r + 1),
            ;
        } else {
            assert(s == r);
            assert(s * s <= q && q < (s + 1) * (s + 1)) by (nonlinear_arith)
                requires
                    s == r,
                    r * r <= q,
                    q < (r + 1) * (r + 1),
            ;
        }
    }
}

pub proof fn lemma_sqrt_floor_unique(q: nat, r: nat)
    requires
        r * r <= q,
        q < (r + 1) * (r + 1),
    ensures
        r == sqrt_floor(q),
{
    lemma_sqrt_floor_bracket(q);
    let s = sqrt_floor(q);
    if r < s {
        assert((r + 1) * (r + 1) <= s * s) by (nonlinear_arith)
            requires
                r + 1 <= s,
        ;
    }
    if s < r {
        assert((s + 1) * (s + 1) <= r * r) by (nonlinear_arith)
            requires
                s + 1 <= r,
        ;
    }
}

/// Integer square root: the largest `r` with `r * r <= q`.
pub fn isqrt(q: u64) -> (r: u64)
    ensures
        r == sqrt_floor(q as nat),
        r * r <= q,
        q < (r + 1) * (r + 1),
{
    let mut lo: u64 = 0;
    let mut hi: u64 = 4_294_967_296;
    proof {
        assert((4_294_967_296int) * 4_294_967_296 > u64::MAX);
    }
    while lo + 1 < hi
        invariant
            lo < hi,
            hi <= 4_294_967_296,
            lo * lo <= q,
            (q as int) < hi * hi,
        decreases hi - lo,
    {
        let mid: u64 = lo + (hi - lo) / 2;
        proof {
            assert((mid as int) * (mid as int) <= 0x10000000000000000) by (nonlinear_arith)
                requires
                    0 <= mid <= 0x100000000,
            ;
        }
        if (mid as u128) * (mid as u128) <= q as u128 {
            lo = mid;
        } else {
            hi = mid;
        }
    }
    proof {
        lemma_sqrt_floor_unique(q as nat, lo as nat);
    }
    lo
}

/// The normalized direction of a non-zero vector: componentwise
/// `x * FP_UNIT / sqrt(norm_sq)`, truncating toward zero.
pub open spec fn spec_normalized(v: Vec3Fix) -> Vec3Fix
    recommends
        v.norm_sq() > 0,
{
    let n = sqrt_floor(v.norm_sq() as nat) as int;
    Vec3Fix {
        x: tdiv(v.x * FP_UNIT, n) as i64,
        y: tdiv(v.y * FP_UNIT, n) as i64,
        z: tdiv(v.z * FP_UNIT, n) as i64,
    }
}

pub open spec fn spec_normalize_or_zero(v: Vec3Fix) -> Vec3Fix {
    if v.norm_sq() == 0 {
        Vec3Fix { x: 0, y: 0, z: 0 }
    } else {
        spec_normalized(v)
    }
}

/// A fixed-point direction of approximately unit length.
pub open spec fn is_unit_fp(v: Vec3Fix) -> bool {
    UNIT_NORM_SQ_LO <= v.norm_sq() <= UNIT_NORM_SQ_HI
}

/// One signed component of the normalized vector: `x * FP_UNIT / n`.
fn scale_comp(x: i64, n: u64) -> (r: i64)
    requires
        -1_000_000 <= x <= 1_000_000,
        1 <= n,
        abs_of(x as int) <= n,
    ensures
        r == tdiv(x * FP_UNIT, n as int),
        -FP_UNIT <= r <= FP_UNIT,
{
    let ax: u64 = if x >= 0 {
        x as u64
    } else {
        (-x) as u64
    };
    proof {
        assert(ax * (FP_UNIT as u64) <= 1_000_000_000) by (nonlinear_arith)
            requires
                0 <= ax <= 1_000_000,
        ;
    }
    let a: u64 = ax * (FP_UNIT as u64);
    let u: u64 = a / n;
    proof {
        vstd::arithmetic::div_mod::lemma_div_pos_is_pos(a as int, n as int);
        vstd::arithmetic::div_mod::lemma_div_nonincreasing(a as int, n as int);
        if x < 0 {
            assert((-x) * FP_UNIT == -(x * FP_UNIT)) by (nonlinear_arith);
        }
        assert(a <= n * FP_UNIT) by (nonlinear_arith)
            requires
                a == abs_of(x as int) * FP_UNIT,
                abs_of(x as int) <= n,
                FP_UNIT > 0,
        ;
        assert((a as int) / (n as int) <= ((n as int) * (FP_UNIT as int)) / (n as int)) by {
            vstd::arithmetic::div_mod::lemma_div_is_ordered(a as int, n * FP_UNIT, n as int);
        }
        assert(((n as int) * (FP_UNIT as int)) / (n as int) == FP_UNIT) by {
            vstd::arithmetic::div_mod::lemma_div_multiples_vanish(FP_UNIT as int, n as int);
        }
    }
    if x >= 0 {
        u as i64
    } else {
        -(u as i64)
    }
}

/// Normalize to a direction of norm about `FP_UNIT`; zero stays zero.
pub fn normalize_or_zero(v: Vec3Fix) -> (r: Vec3Fix)
    requires
        v.bounded(DIR_IN_LIMIT as int),
    ensures
        r == spec_normalize_or_zero(v),
        v.norm_sq() >= MIN_DIR_NORM_SQ ==> is_unit_fp(r),
        r.bounded(FP_UNIT as int),
    {
    let ax: u64 = if v.x >= 0 {
        v.x as u64
    } else {
        (-v.x) as u64
    };
    let ay: u64 = if v.y >= 0 {
        v.y as u64
    } else {
        (-v.y) as u64
    };
    let az: u64 = if v.z >= 0 {
        v.z as u64
    } else {
        (-v.z) as u64
    };
    proof {
        assert(ax * ax == v.x * v.x && ay * ay == v.y * v.y && az * az == v.z * v.z)
            by (nonlinear_arith)
            requires
                ax == if v.x >= 0 {
                    v.x as int
                } else {
                    -v.x as int
                },
                ay == if v.y >= 0 {
                    v.y as int
                } else {
                    -v.y as int
                },
                az == if v.z >= 0 {
                    v.z as int
                } else {
                    -v.z as int
                },
        ;
        assert(ax * ax <= 1_000_000_000_000u64 && ay * ay <= 1_000_000_000_000u64 && az * az
            <= 1_000_000_000_000u64) by (nonlinear_arith)
            requires
                0 <= ax <= 1_000_000,
                0 <= ay <= 1_000_000,
                0 <= az <= 1_000_000,
        ;
    }
    let q: u64 = ax * ax + ay * ay + az * az;
    if q == 0 {
        proof {
            assert(v.x == 0 && v.y == 0 && v.z == 0) by (nonlinear_arith)
                requires
                    v.x * v.x + v.y * v.y + v.z * v.z == 0,
            ;
        }
        Vec3Fix { x: 0, y: 0, z: 0 }
    } else {
        let n: u64 = isqrt(q);
        proof {
            assert(n >= 1) by (nonlinear_arith)
                requires
                    (q as int) < (n + 1) * (n + 1),
                    q >= 1,
                    n >= 0,
            ;
            assert(ax <= n) by (nonlinear_arith)
                requires
                    ax * ax <= q,
                    (q as int) < (n + 1) * (n + 1),
                    n >= 0,
                    ax >= 0,
            ;
            assert(ay <= n) by (nonlinear_arith)
                requires
                    ay * ay <= q,
                    (q as int) < (n + 1) * (n + 1),
                    n >= 0,
                    ay >= 0,
            ;
            assert(az <= n) by (nonlinear_arith)
                requires
                    az * az <= q,
                    (q as int) < (n + 1) * (n + 1),
                    n >= 0,
                    az >= 0,
            ;
        }
        let r = Vec3Fix {
            x: scale_comp(v.x, n),
            y: scale_comp(v.y, n),
            z: scale_comp(v.z, n),
        };
        proof {
            if v.norm_sq() >= MIN_DIR_NORM_SQ {
                lemma_normalized_near_unit(v);
            }
        }
        r
    }
}

/// Normalization theorem: any sufficiently long input vector normalizes to
/// a direction whose squared norm lies within the fixed-point tolerance of
/// `FP_UNIT * FP_UNIT`.
pub proof fn lemma_normalized_near_unit(v: Vec3Fix)
    requires
        v.bounded(DIR_IN_LIMIT as int),
        v.norm_sq() >= MIN_DIR_NORM_SQ,
    ensures
        is_unit_fp(spec_normalized(v)),
{
    let q = v.norm_sq();
    let n = sqrt_floor(q as nat) as int;
    lemma_sqrt_floor_bracket(q as nat);
    assert(n * n <= q < (n + 1) * (n + 1));
    // q >= 10_000 forces n >= 100; q <= 3 * 10^12 keeps everything small
    assert(q <= 3_000_000_000_000) by (nonlinear_arith)
        requires
            q == v.norm_sq(),
            -1_000_000 <= v.x <= 1_000_000,
            -1_000_000 <= v.y <= 1_000_000,
            -1_000_000 <= v.z <= 1_000_000,
    ;
    assert(n >= 100) by (nonlinear_arith)
        requires
            q < (n + 1) * (n + 1),
            q >= 10_000,
            n >= 0,
    ;
    let s = FP_UNIT as int;
    let a1 = abs_of(v.x as int) * s;
    let a2 = abs_of(v.y as int) * s;
    let a3 = abs_of(v.z as int) * s;
    let u1 = a1 / n;
    let u2 = a2 / n;
    let u3 = a3 / n;
    let d = spec_normalized(v);
    // the components of the normalized vector are +/- u_i
    assert(tdiv(v.x * s, n) == if v.x >= 0 { u1 } else { -u1 }) by (nonlinear_arith)
        requires
            n >= 1,
            a1 == abs_of(v.x as int) * s,
            u1 == a1 / n,
            s > 0,
    ;
    assert(tdiv(v.y * s, n) == if v.y >= 0 { u2 } else { -u2 }) by (nonlinear_arith)
        requires
            n >= 1,
            a2 == abs_of(v.y as int) * s,
            u2 == a2 / n,
            s > 0,
    ;
    assert(tdiv(v.z * s, n) == if v.z >= 0 { u3 } else { -u3 }) by (nonlinear_arith)
        requires
            n >= 1,
            a3 == abs_of(v.z as int) * s,
            u3 == a3 / n,
            s > 0,
    ;
    assert(a1 >= 0 && a2 >= 0 && a3 >= 0) by (nonlinear_arith)
        requires
            a1 == abs_of(v.x as int) * s,
            a2 == abs_of(v.y as int) * s,
            a3 == abs_of(v.z as int) * s,
            s > 0,
    ;
    assert(0 <= u1 && 0 <= u2 && 0 <= u3) by {
        vstd::arithmetic::div_mod::lemma_div_pos_is_pos(a1, n);
        vstd::arithmetic::div_mod::lemma_div_pos_is_pos(a2, n);
        vstd::arithmetic::div_mod::lemma_div_pos_is_pos(a3, n);
    }
    let du = u1 * u1 + u2 * u2 + u3 * u3;
    assert(d.norm_sq() == du) by (nonlinear_arith)
        requires
            d.x == if v.x >= 0 { u1 } else { -u1 },
            d.y == if v.y >= 0 { u2 } else { -u2 },
            d.z == if v.z >= 0 { u3 } else { -u3 },
            du == u1 * u1 + u2 * u2 + u3 * u3,
    ;
    // division brackets: n * u_i <= a_i < n * (u_i + 1)
    vstd::arithmetic::div_mod::lemma_fundamental_div_mod(a1, n);
    vstd::arithmetic::div_mod::lemma_mod_bound(a1, n);
    vstd::arithmetic::div_mod::lemma_fundamental_div_mod(a2, n);
    vstd::arithmetic::div_mod::lemma_mod_bound(a2, n);
    vstd::arithmetic::div_mod::lemma_fundamental_div_mod(a3, n);
    vstd::arithmetic::div_mod::lemma_mod_bound(a3, n);
    assert(n * u1 <= a1 < n * u1 + n);
    assert(n * u2 <= a2 < n * u2 + n);
    assert(n * u3 <= a3 < n * u3 + n);
    // sum of squares of the a_i is s^2 * q
    let aq = a1 * a1 + a2 * a2 + a3 * a3;
    assert(a1 * a1 == s * s * (v.x * v.x)) by (nonlinear_arith)
        requires
            a1 == abs_of(v.x as int) * s,
    ;
    assert(a2 * a2 == s * s * (v.y * v.y)) by (nonlinear_arith)
        requires
            a2 == abs_of(v.y as int) * s,
    ;
    assert(a3 * a3 == s * s * (v.z * v.z)) by (nonlinear_arith)
        requires
            a3 == abs_of(v.z as int) * s,
    ;
    assert(aq == s * s * q) by (nonlinear_arith)
        requires
            q == v.x * v.x + v.y * v.y + v.z * v.z,
            aq == s * s * (v.x * v.x) + s * s * (v.y * v.y) + s * s * (v.z * v.z),
    ;
    // upper bound: du * n^2 <= aq <= s^2 (n^2 + 2n), hence du <= s^2 + 21_000
    assert((u1 * n) * (u1 * n) <= a1 * a1) by (nonlinear_arith)
        requires
            n * u1 <= a1,
            0 <= u1,
            0 <= n,
    ;
    assert((u2 * n) * (u2 * n) <= a2 * a2) by (nonlinear_arith)
        requires
            n * u2 <= a2,
            0 <= u2,
            0 <= n,
    ;
    assert((u3 * n) * (u3 * n) <= a3 * a3) by (nonlinear_arith)
        requires
            n * u3 <= a3,
            0 <= u3,
            0 <= n,
    ;
    assert(du * (n * n) == (u1 * n) * (u1 * n) + (u2 * n) * (u2 * n) + (u3 * n) * (u3 * n))
        by (nonlinear_arith)
        requires
            du == u1 * u1 + u2 * u2 + u3 * u3,
    ;
    assert(du * (n * n) <= aq);
    assert(aq <= s * s * (n * n + 2 * n)) by (nonlinear_arith)
        requires
            aq == s * s * q,
            q < (n + 1) * (n + 1),
            s > 0,
            n >= 0,
    ;
    assert(du <= 1_021_000) by (nonlinear_arith)
        requires
            du * (n * n) <= s * s * (n * n + 2 * n),
            n >= 100,
            s == 1000,
            du >= 0,
    ;
    // lower bound: n^2 * du >= aq - 2 * n * (a1 + a2 + a3)
    assert((n * u1) * (n * u1) >= a1 * a1 - 2 * n * a1) by (nonlinear_arith)
        requires
            n * u1 <= a1 < n * u1 + n,
            0 <= u1,
            n >= 1,
            a1 >= 0,
    ;
    assert((n * u2) * (n * u2) >= a2 * a2 - 2 * n * a2) by (nonlinear_arith)
        requires
            n * u2 <= a2 < n * u2 + n,
            0 <= u2,
            n >= 1,
            a2 >= 0,
    ;
    assert((n * u3) * (n * u3) >= a3 * a3 - 2 * n * a3) by (nonlinear_arith)
        requires
            n * u3 <= a3 < n * u3 + n,
            0 <= u3,
            n >= 1,
            a3 >= 0,
    ;
    assert((n * n) * du == (n * u1) * (n * u1) + (n * u2) * (n * u2) + (n * u3) * (n * u3))
        by (nonlinear_arith)
        requires
            du == u1 * u1 + u2 * u2 + u3 * u3,
    ;
    assert(2 * n * (a1 + a2 + a3) == 2 * n * a1 + 2 * n * a2 + 2 * n * a3) by (nonlinear_arith);
    assert((n * n) * du >= aq - 2 * n * (a1 + a2 + a3));
    // Cauchy-style bound: (a1 + a2 + a3)^2 <= 3 * aq < (2 s (n + 1))^2
    assert((a1 + a2 + a3) * (a1 + a2 + a3) <= 3 * aq) by (nonlinear_arith)
        requires
            aq == a1 * a1 + a2 * a2 + a3 * a3,
    ;
    assert(3 * aq < (2 * s * (n + 1)) * (2 * s * (n + 1))) by (nonlinear_arith)
        requires
            aq == s * s * q,
            q < (n + 1) * (n + 1),
            s == 1000,
            n >= 1,
    ;
    assert(a1 + a2 + a3 < 2 * s * (n + 1)) by (nonlinear_arith)
        requires
            (a1 + a2 + a3) * (a1 + a2 + a3) < (2 * s * (n + 1)) * (2 * s * (n + 1)),
            a1 >= 0 && a2 >= 0 && a3 >= 0,
            s >= 1,
            n >= 1,
    ;
    assert(du >= 995_000) by (nonlinear_arith)
        requires
            (n * n) * du >= aq - 2 * n * (a1 + a2 + a3),
            a1 + a2 + a3 < 2 * s * (n + 1),
            aq == s * s * q,
            q >= n * n,
            n >= 100,
            s == 1000,
    ;
}

/// Absolute value on `int`.
pub open spec fn abs_of(a: int) -> int {
    if a >= 0 {
        a
    } else {
        -a
    }
}

} // verus!
