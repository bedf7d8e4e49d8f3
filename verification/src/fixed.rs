//! Fixed-point scalars: the numeric ground the whole library stands on.
//!
//! A continuous quantity is represented as a signed count of ticks, with
//! [`SCALE`] ticks to one whole unit. Every value the agent stores is kept
//! inside `[-MAG_LIMIT, MAG_LIMIT]`, so all later arithmetic can be proved
//! free of overflow; inputs from outside are clamped on entry rather than
//! rejected, since a degraded tick must never halt the loop.

use vstd::prelude::*;

verus! {

/// Number of ticks in one whole unit of the continuous scale.
pub const SCALE: i64 = 1_000_000;

/// Magnitude bound on every stored continuous scalar (one million units).
pub const MAG_LIMIT: i64 = 1_000_000_000_000;

/// Magnitude bound on every stored value estimate of the learner.
pub const Q_LIMIT: i64 = 20_000_000_000_000;

/// A scalar lies within the clamped continuous range.
pub open spec fn in_mag(v: int) -> bool {
    -MAG_LIMIT <= v <= MAG_LIMIT
}

/// A continuous three-axis state, one fixed-point scalar per axis.
#[derive(Clone, Copy, Debug, PartialEq, Eq, Structural)]
pub struct Vec3 {
    pub x: i64,
    pub y: i64,
    pub z: i64,
}

/// Every axis of the state lies within the clamped continuous range.
pub open spec fn in_mag3(v: Vec3) -> bool {
    in_mag(v.x as int) && in_mag(v.y as int) && in_mag(v.z as int)
}

/// What clamping a state axis-by-axis yields.
pub open spec fn clamp_vec3_spec(v: Vec3) -> Vec3 {
    Vec3 {
        x: clamp_mag_spec(v.x as int) as i64,
        y: clamp_mag_spec(v.y as int) as i64,
        z: clamp_mag_spec(v.z as int) as i64,
    }
}

/// What clamping to the continuous range yields.
pub open spec fn clamp_mag_spec(v: int) -> int {
    if v < -MAG_LIMIT {
        -MAG_LIMIT as int
    } else if v > MAG_LIMIT {
        MAG_LIMIT as int
    } else {
        v
    }
}

/// Truncating (round-toward-zero) division, the way hardware divides.
pub open spec fn div_trunc_spec(v: int, d: int) -> int
    recommends
        d >= 1,
{
    if v >= 0 {
        v / d
    } else {
        -((-v) / d)
    }
}

/// Two-sided bound tying truncating division back to multiplication.
pub proof fn lemma_div_trunc_fundamental(v: int, d: int)
    requires
        d >= 1,
    ensures
        v >= 0 ==> 0 <= div_trunc_spec(v, d) && d * div_trunc_spec(v, d) <= v <= d
            * div_trunc_spec(v, d) + (d - 1),
        v < 0 ==> div_trunc_spec(v, d) <= 0 && v <= d * div_trunc_spec(v, d) <= v + (d - 1),
{
    if v >= 0 {
        vstd::arithmetic::div_mod::lemma_fundamental_div_mod(v, d);
        vstd::arithmetic::div_mod::lemma_mod_division_less_than_divisor(v, d);
        vstd::arithmetic::div_mod::lemma_div_pos_is_pos(v, d);
    } else {
        let m = -v;
        vstd::arithmetic::div_mod::lemma_fundamental_div_mod(m, d);
        vstd::arithmetic::div_mod::lemma_mod_division_less_than_divisor(m, d);
        vstd::arithmetic::div_mod::lemma_div_pos_is_pos(m, d);
        assert(d * div_trunc_spec(v, d) == -(d * (m / d))) by (nonlinear_arith)
            requires
                div_trunc_spec(v, d) == -(m / d),
        ;
    }
}

/// Clamp a scalar into the continuous range.
pub fn clamp_mag(v: i64) -> (r: i64)
    ensures
        r == clamp_mag_spec(v as int),
        in_mag(r as int),
{
    if v < -MAG_LIMIT {
        -MAG_LIMIT
    } else if v > MAG_LIMIT {
        MAG_LIMIT
    } else {
        v
    }
}

/// Truncating division of a signed scalar by a positive divisor.
pub fn div_trunc(v: i64, d: u64) -> (r: i64)
    requires
        1 <= d,
        v > i64::MIN,
    ensures
        r == div_trunc_spec(v as int, d as int),
{
    if v >= 0 {
        let q: u64 = (v as u64) / d;
        proof {
            vstd::arithmetic::div_mod::lemma_div_is_ordered_by_denominator(v as int, 1, d as int);
            vstd::arithmetic::div_mod::lemma_div_basics(v as int);
        }
        q as i64
    } else {
        let m: i64 = -v;
        let q: u64 = (m as u64) / d;
        proof {
            vstd::arithmetic::div_mod::lemma_div_is_ordered_by_denominator(m as int, 1, d as int);
            vstd::arithmetic::div_mod::lemma_div_basics(m as int);
        }
        -(q as i64)
    }
}

/// The larger of two scalars.
pub fn max_i64(a: i64, b: i64) -> (r: i64)
    ensures
        r == if a >= b { a as int } else { b as int },
{
    if a >= b {
        a
    } else {
        b
    }
}

/// The smaller of two scalars.
pub fn min_i64(a: i64, b: i64) -> (r: i64)
    ensures
        r == if a <= b { a as int } else { b as int },
{
    if a <= b {
        a
    } else {
        b
    }
}

/// Clamp a state into the continuous range, axis by axis.
pub fn clamp_vec3(v: Vec3) -> (r: Vec3)
    ensures
        r == clamp_vec3_spec(v),
        in_mag3(r),
{
    Vec3 { x: clamp_mag(v.x), y: clamp_mag(v.y), z: clamp_mag(v.z) }
}

/// The integer square root: the largest integer whose square is at most `n`.
pub open spec fn isqrt_spec(n: int) -> int
    decreases n when n >= 0
{
    if n <= 0 {
        0
    } else {
        let r = isqrt_spec(n - 1);
        if (r + 1) * (r + 1) <= n {
            r + 1
        } else {
            r
        }
    }
}

/// The integer square root is characterised by its two-sided square bound.
pub proof fn lemma_isqrt_char(n: int)
    requires
        n >= 0,
    ensures
        isqrt_spec(n) >= 0,
        isqrt_spec(n) * isqrt_spec(n) <= n,
        n < (isqrt_spec(n) + 1) * (isqrt_spec(n) + 1),
    decreases n,
{
    if n == 0 {
    } else {
        lemma_isqrt_char(n - 1);
        let r = isqrt_spec(n - 1);
        if (r + 1) * (r + 1) <= n {
            assert(n <= (r + 1) * (r + 1)) by {
                assert(n - 1 < (r + 1) * (r + 1));
            }
            assert((r + 1) * (r + 1) < (r + 2) * (r + 2)) by (nonlinear_arith)
                requires
                    r >= 0,
            ;
        }
    }
}

/// Any integer meeting the two-sided square bound is the integer square root.
pub proof fn lemma_isqrt_unique(n: int, r: int)
    requires
        n >= 0,
        r >= 0,
        r * r <= n,
        n < (r + 1) * (r + 1),
    ensures
        r == isqrt_spec(n),
{
    lemma_isqrt_char(n);
    let s = isqrt_spec(n);
    if r < s {
        assert((r + 1) * (r + 1) <= s * s) by (nonlinear_arith)
            requires
                0 <= r,
                r < s,
        ;
    }
    if s < r {
        assert((s + 1) * (s + 1) <= r * r) by (nonlinear_arith)
            requires
                0 <= s,
                s < r,
        ;
    }
}

/// Integer square root by binary search over the 64-bit range.
pub fn isqrt_u128(n: u128) -> (r: u64)
    ensures
        r == isqrt_spec(n as int),
        r as int * r as int <= n as int,
        n < (r as int + 1) * (r as int + 1),
{
    let mut lo: u64 = 0;
    let mut hi: u64 = u64::MAX;
    while lo < hi
        invariant
            lo <= hi,
            lo as int * lo as int <= n as int,
            n < (hi as int + 1) * (hi as int + 1),
        decreases hi - lo,
    {
        let mid: u64 = hi - (hi - lo) / 2;
        proof {
            assert(mid as int * mid as int <= u128::MAX as int) by (nonlinear_arith)
                requires
                    0 <= mid as int <= u64::MAX as int,
            ;
        }
        if (mid as u128) * (mid as u128) <= n {
            lo = mid;
        } else {
            hi = mid - 1;
        }
    }
    proof {
        lemma_isqrt_unique(n as int, lo as int);
    }
    lo
}

/// Squared Euclidean distance between two states.
pub open spec fn dist2_spec(a: Vec3, b: Vec3) -> int {
    (a.x - b.x) * (a.x - b.x) + (a.y - b.y) * (a.y - b.y) + (a.z - b.z) * (a.z - b.z)
}

/// Euclidean distance between two states, rounded down to whole ticks.
pub open spec fn dist_spec(a: Vec3, b: Vec3) -> int {
    isqrt_spec(dist2_spec(a, b))
}

/// Largest distance two clamped states can be apart.
pub const DIST_LIMIT: i64 = 4_000_000_000_000;

/// Euclidean distance between two clamped states.
pub fn dist(a: Vec3, b: Vec3) -> (r: i64)
    requires
        in_mag3(a),
        in_mag3(b),
    ensures
        r == dist_spec(a, b),
        0 <= r <= DIST_LIMIT,
{
    let dx: i64 = a.x - b.x;
    let dy: i64 = a.y - b.y;
    let dz: i64 = a.z - b.z;
    proof {
        assert(dx as int * dx as int >= 0 && dx as int * dx as int
            <= 4_000_000_000_000_000_000_000_000) by (nonlinear_arith)
            requires
                -2_000_000_000_000 <= dx <= 2_000_000_000_000,
        ;
        assert(dy as int * dy as int >= 0 && dy as int * dy as int
            <= 4_000_000_000_000_000_000_000_000) by (nonlinear_arith)
            requires
                -2_000_000_000_000 <= dy <= 2_000_000_000_000,
        ;
        assert(dz as int * dz as int >= 0 && dz as int * dz as int
            <= 4_000_000_000_000_000_000_000_000) by (nonlinear_arith)
            requires
                -2_000_000_000_000 <= dz <= 2_000_000_000_000,
        ;
    }
    let sx: u128 = (dx as i128 * dx as i128) as u128;
    let sy: u128 = (dy as i128 * dy as i128) as u128;
    let sz: u128 = (dz as i128 * dz as i128) as u128;
    let n: u128 = sx + sy + sz;
    let r: u64 = isqrt_u128(n);
    proof {
        assert(r <= DIST_LIMIT) by (nonlinear_arith)
            requires
                r as int * r as int <= n as int,
                n as int <= 12_000_000_000_000_000_000_000_000,
                r >= 0,
        ;
    }
    r as i64
}

} // verus!
