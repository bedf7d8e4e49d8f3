//! Foveated discretization of continuous state.
//!
//! Each axis is folded through a sign-preserving logarithmic bucketing:
//! resolution is dense near the origin, where the dynamics are rich, and
//! coarse far away, so the learned tables stay small. Bucket `k + 1` begins
//! where `ln(1 + u)` (in whole units) passes `(k + 1/2) / 4`; rather than
//! evaluate a logarithm, the boundaries are walked geometrically, each one
//! `exp(1/4)` times the last in fixed point, which keeps the map a pure
//! integer function: equal inputs always produce identical keys.
//!
//! The three per-axis buckets are packed into one canonical `u64` state key;
//! packing is injective, so distinct bucket triples never collide.

use vstd::prelude::*;
use crate::fixed::{Vec3, SCALE, MAG_LIMIT, in_mag, in_mag3};

verus! {

/// First bucket boundary plus one unit: `SCALE * exp(1/8)`, rounded.
pub const FOV_T0: u64 = 1_133_148;

/// Fixed-point ratio between successive boundaries: `SCALE * exp(1/4)`.
pub const FOV_RATIO: u64 = 1_284_025;

/// Buckets saturate here; at the clamp bound the transform never gets close.
pub const FOV_MAX_BUCKET: u32 = 64;

/// The next bucket boundary marker, one ratio step further out.
pub open spec fn fov_step_spec(t: int) -> int {
    t * (FOV_RATIO as int) / (SCALE as int)
}

/// How many boundaries at or below `u` the walk finds with `fuel` steps
/// left, starting from boundary marker `t`.
pub open spec fn fov_count_spec(u: int, t: int, fuel: nat) -> nat
    decreases fuel,
{
    if fuel == 0 {
        0
    } else if u < t - SCALE {
        0
    } else {
        1 + fov_count_spec(u, fov_step_spec(t), (fuel - 1) as nat)
    }
}

/// Bucket of a nonnegative axis magnitude.
pub open spec fn fov_mag_spec(u: int) -> nat {
    fov_count_spec(u, FOV_T0 as int, FOV_MAX_BUCKET as nat)
}

/// Sign-preserving bucket of one axis.
pub open spec fn foveate_spec(v: int) -> int {
    if v >= 0 {
        fov_mag_spec(v) as int
    } else {
        -(fov_mag_spec(-v) as int)
    }
}

/// More magnitude never means an earlier bucket.
pub proof fn lemma_fov_count_monotone(u1: int, u2: int, t: int, fuel: nat)
    requires
        u1 <= u2,
    ensures
        fov_count_spec(u1, t, fuel) <= fov_count_spec(u2, t, fuel),
    decreases fuel,
{
    if fuel > 0 && !(u1 < t - SCALE) {
        lemma_fov_count_monotone(u1, u2, fov_step_spec(t), (fuel - 1) as nat);
    }
}

/// The bucket walk over one axis, in executable form.
pub fn fov_mag(u: i64) -> (r: u32)
    requires
        0 <= u <= MAG_LIMIT,
    ensures
        r == fov_mag_spec(u as int),
        r <= FOV_MAX_BUCKET,
{
    let mut bucket: u32 = 0;
    let mut t: u64 = FOV_T0;
    while bucket < FOV_MAX_BUCKET && u >= (t as i64) - SCALE
        invariant
            0 <= u <= MAG_LIMIT,
            bucket <= FOV_MAX_BUCKET,
            FOV_T0 <= t <= 2_000_000_000_000,
            fov_mag_spec(u as int) == bucket + fov_count_spec(
                u as int,
                t as int,
                (FOV_MAX_BUCKET - bucket) as nat,
            ),
        decreases FOV_MAX_BUCKET - bucket,
    {
        proof {
            assert(fov_count_spec(u as int, t as int, (FOV_MAX_BUCKET - bucket) as nat) == 1
                + fov_count_spec(
                u as int,
                fov_step_spec(t as int),
                (FOV_MAX_BUCKET - bucket - 1) as nat,
            ));
            assert(t as int * (FOV_RATIO as int) / (SCALE as int) >= t as int) by (nonlinear_arith)
                requires
                    t as int >= 1,
                    FOV_RATIO as int >= SCALE as int > 0,
            ;
            assert(t as int * (FOV_RATIO as int) / (SCALE as int) <= 2_000_000_000_000)
                by (nonlinear_arith)
                requires
                    0 < t as int <= MAG_LIMIT as int + SCALE as int,
                    FOV_RATIO as int == 1_284_025,
                    SCALE as int == 1_000_000,
                    MAG_LIMIT as int == 1_000_000_000_000,
            ;
        }
        bucket = bucket + 1;
        t = ((t as u128 * FOV_RATIO as u128) / (SCALE as u128)) as u64;
    }
    bucket
}

/// Sign-preserving foveated bucket of one axis.
pub fn foveate(v: i64) -> (r: i32)
    requires
        in_mag(v as int),
    ensures
        r == foveate_spec(v as int),
        -(FOV_MAX_BUCKET as int) <= r <= FOV_MAX_BUCKET as int,
{
    if v >= 0 {
        fov_mag(v) as i32
    } else {
        let b = fov_mag(-v);
        -(b as i32)
    }
}

/// The signed foveated bucket never decreases as the axis value grows.
pub proof fn lemma_foveate_monotone(v1: int, v2: int)
    requires
        v1 <= v2,
    ensures
        foveate_spec(v1) <= foveate_spec(v2),
{
    if v1 >= 0 {
        lemma_fov_count_monotone(v1, v2, FOV_T0 as int, FOV_MAX_BUCKET as nat);
    } else if v2 < 0 {
        lemma_fov_count_monotone(-v2, -v1, FOV_T0 as int, FOV_MAX_BUCKET as nat);
    }
}

/// An axis value between two values of one bucket shares that bucket.
pub proof fn lemma_foveate_stable(lo: int, mid: int, hi: int)
    requires
        lo <= mid <= hi,
        foveate_spec(lo) == foveate_spec(hi),
    ensures
        foveate_spec(mid) == foveate_spec(lo),
{
    lemma_foveate_monotone(lo, mid);
    lemma_foveate_monotone(mid, hi);
}

/// Biased per-axis code packed into the key: buckets sit in `[0, 128]`.
pub open spec fn axis_code_spec(b: int) -> int {
    b + FOV_MAX_BUCKET
}

/// Canonical state key of a (clamped) continuous state: the three biased
/// axis buckets in base 256.
pub open spec fn state_key_spec(v: Vec3) -> int {
    axis_code_spec(foveate_spec(v.x as int)) * 0x1_0000 + axis_code_spec(
        foveate_spec(v.y as int),
    ) * 0x100 + axis_code_spec(foveate_spec(v.z as int))
}

/// Upper bound (exclusive) on every state key.
pub const STATE_KEY_LIMIT: u64 = 0x1_00_00_00;

/// Derive the canonical state key of a clamped state.
pub fn discretize(v: Vec3) -> (r: u64)
    requires
        in_mag3(v),
    ensures
        r == state_key_spec(v),
        r < STATE_KEY_LIMIT,
{
    let bx: i32 = foveate(v.x);
    let by: i32 = foveate(v.y);
    let bz: i32 = foveate(v.z);
    let cx: u64 = (bx + FOV_MAX_BUCKET as i32) as u64;
    let cy: u64 = (by + FOV_MAX_BUCKET as i32) as u64;
    let cz: u64 = (bz + FOV_MAX_BUCKET as i32) as u64;
    cx * 0x1_0000 + cy * 0x100 + cz
}

/// Packing is injective: equal keys force equal axis codes.
pub proof fn lemma_state_key_injective(v1: Vec3, v2: Vec3)
    requires
        state_key_spec(v1) == state_key_spec(v2),
    ensures
        foveate_spec(v1.x as int) == foveate_spec(v2.x as int),
        foveate_spec(v1.y as int) == foveate_spec(v2.y as int),
        foveate_spec(v1.z as int) == foveate_spec(v2.z as int),
{
    lemma_fov_range(v1.x as int);
    lemma_fov_range(v1.y as int);
    lemma_fov_range(v1.z as int);
    lemma_fov_range(v2.x as int);
    lemma_fov_range(v2.y as int);
    lemma_fov_range(v2.z as int);
}

/// Every foveated bucket stays within the saturation range.
pub proof fn lemma_fov_range(v: int)
    ensures
        -(FOV_MAX_BUCKET as int) <= foveate_spec(v) <= FOV_MAX_BUCKET as int,
{
    lemma_fov_count_bound(v, FOV_T0 as int, FOV_MAX_BUCKET as nat);
    lemma_fov_count_bound(-v, FOV_T0 as int, FOV_MAX_BUCKET as nat);
}

/// The walk can never count more boundaries than it has fuel.
pub proof fn lemma_fov_count_bound(u: int, t: int, fuel: nat)
    ensures
        fov_count_spec(u, t, fuel) <= fuel,
    decreases fuel,
{
    if fuel > 0 && !(u < t - SCALE) {
        lemma_fov_count_bound(u, fov_step_spec(t), (fuel - 1) as nat);
    }
}

/// Key under which the world model stores a (state, action) pair.
pub open spec fn model_key_spec(state_key: int, action_id: int) -> int {
    state_key * 8 + action_id
}

/// Pack a state key and an action identifier into one model key.
pub fn model_key(state_key: u64, action_id: u8) -> (r: u64)
    requires
        state_key < STATE_KEY_LIMIT,
        action_id <= 6,
    ensures
        r == model_key_spec(state_key as int, action_id as int),
{
    state_key * 8 + action_id as u64
}

/// Model keys are injective in both components.
pub proof fn lemma_model_key_injective(s1: int, a1: int, s2: int, a2: int)
    requires
        0 <= a1 < 8,
        0 <= a2 < 8,
        model_key_spec(s1, a1) == model_key_spec(s2, a2),
    ensures
        s1 == s2,
        a1 == a2,
{
    assert(s1 == s2 && a1 == a2) by (nonlinear_arith)
        requires
            0 <= a1 < 8,
            0 <= a2 < 8,
            s1 * 8 + a1 == s2 * 8 + a2,
    ;
}

} // verus!
