//! The general laws of the library, each proved once and for all inputs.
//!
//! Scenario-shaped properties live in the test suite; what is stated here
//! holds universally and is checked by the verifier, not by sampling.

use vstd::prelude::*;
use vstd::math::abs;
use crate::agent::{
    decay_spec,
    q_update_value_spec,
    AgentModel,
    EPS_MIN,
};
use crate::discretize::{foveate_spec, lemma_foveate_stable, state_key_spec};
use crate::fixed::{lemma_div_trunc_fundamental, div_trunc_spec, Vec3};

verus! {

/// Discretization is deterministic: the key is a pure function of the
/// state, so equal states always carry identical keys.
pub proof fn lemma_discretize_deterministic(s1: Vec3, s2: Vec3)
    requires
        s1 == s2,
    ensures
        state_key_spec(s1) == state_key_spec(s2),
{
}

/// Discretization is stable inside a bucket: a state lying axis-by-axis
/// between two states whose axes share buckets carries the same key, so
/// small perturbations within one fovea bucket cannot change the key.
pub proof fn lemma_discretize_stable(lo: Vec3, mid: Vec3, hi: Vec3)
    requires
        lo.x <= mid.x <= hi.x,
        lo.y <= mid.y <= hi.y,
        lo.z <= mid.z <= hi.z,
        foveate_spec(lo.x as int) == foveate_spec(hi.x as int),
        foveate_spec(lo.y as int) == foveate_spec(hi.y as int),
        foveate_spec(lo.z as int) == foveate_spec(hi.z as int),
    ensures
        state_key_spec(mid) == state_key_spec(lo),
{
    lemma_foveate_stable(lo.x as int, mid.x as int, hi.x as int);
    lemma_foveate_stable(lo.y as int, mid.y as int, hi.y as int);
    lemma_foveate_stable(lo.z as int, mid.z as int, hi.z as int);
}

/// The exploration floor: one tick's decay never takes the rate below
/// the configured minimum, and never raises it; hence after any number of
/// ticks the rate stays at or above the floor.
pub proof fn lemma_exploration_floor(eps: int)
    requires
        eps >= EPS_MIN,
    ensures
        decay_spec(eps) >= EPS_MIN,
        decay_spec(eps) <= eps,
{
    assert(eps * 995 / 1000 <= eps) by (nonlinear_arith)
        requires
            eps >= 0,
    ;
}

/// The exploration rate after any number of ticks of decay.
pub open spec fn decay_iter_spec(eps: int, n: nat) -> int
    decreases n,
{
    if n == 0 {
        eps
    } else {
        decay_spec(decay_iter_spec(eps, (n - 1) as nat))
    }
}

/// The exploration floor holds after any number of ticks, not just one.
pub proof fn lemma_exploration_floor_forever(eps: int, n: nat)
    requires
        eps >= EPS_MIN,
    ensures
        decay_iter_spec(eps, n) >= EPS_MIN,
        decay_iter_spec(eps, n) <= eps,
    decreases n,
{
    if n > 0 {
        lemma_exploration_floor_forever(eps, (n - 1) as nat);
        lemma_exploration_floor(decay_iter_spec(eps, (n - 1) as nat));
    }
}

/// Learned tables only grow: when every key known before a tick is still
/// known after it, the count of distinct keys cannot have decreased.
pub proof fn lemma_table_growth(pre: Set<u64>, post: Set<u64>)
    requires
        pre.subset_of(post),
        post.finite(),
    ensures
        pre.len() <= post.len(),
{
    vstd::set_lib::lemma_len_subset(pre, post);
}

/// Tick-over-tick monotonic growth, at the level of the agent's model:
/// a tick that keeps every known key — as every tick does — cannot shrink
/// the key counts of the value table or of the world model.
pub proof fn lemma_model_growth(pre: AgentModel, post: AgentModel)
    requires
        pre.q.dom().subset_of(post.q.dom()),
        pre.wm.dom().subset_of(post.wm.dom()),
        post.q.dom().finite(),
        post.wm.dom().finite(),
    ensures
        pre.q.dom().len() <= post.q.dom().len(),
        pre.wm.dom().len() <= post.wm.dom().len(),
{
    vstd::set_lib::lemma_len_subset(pre.q.dom(), post.q.dom());
    vstd::set_lib::lemma_len_subset(pre.wm.dom(), post.wm.dom());
}

/// Reward convergence: feeding one (state, action) pair the same reward
/// over and over drives its estimate toward reward / (1 - discount), here
/// ten times the reward. In that scenario the best future value is the
/// pair's own estimate, so one tick applies `q_update_value_spec(q, r, q)`;
/// each application strictly shrinks the distance to the fixed point
/// until the distance is within the rounding band, and never leaves the
/// band afterwards — so the estimate settles within a bounded number of
/// updates, at most its initial distance.
pub proof fn lemma_q_convergence_step(q: int, r: int)
    ensures
        abs(q - 10 * r) > 100 ==> abs(q_update_value_spec(q, r, q) - 10 * r) < abs(q - 10 * r),
        abs(q - 10 * r) <= 100 ==> abs(q_update_value_spec(q, r, q) - 10 * r) <= 100,
{
    let g = div_trunc_spec(9 * q, 10);
    lemma_div_trunc_fundamental(9 * q, 10);
    assert(9 * q - 9 <= 10 * g <= 9 * q + 9);
    let inner = r + g - q;
    lemma_div_trunc_fundamental(inner, 10);
    let st = div_trunc_spec(inner, 10);
    assert(inner - 9 <= 10 * st <= inner + 9);
    assert(10 * inner <= 10 * r - q + 9 && 10 * inner >= 10 * r - q - 9) by (nonlinear_arith)
        requires
            inner == r + g - q,
            9 * q - 9 <= 10 * g <= 9 * q + 9,
    ;
    assert(100 * st <= 10 * inner + 90 && 100 * st >= 10 * inner - 90) by (nonlinear_arith)
        requires
            inner - 9 <= 10 * st <= inner + 9,
    ;
    assert(q_update_value_spec(q, r, q) == q + st);
}

/// The estimate after `n` repetitions of the self-loop scenario.
pub open spec fn q_iter_spec(q: int, r: int, n: nat) -> int
    decreases n,
{
    if n == 0 {
        q
    } else {
        let prev = q_iter_spec(q, r, (n - 1) as nat);
        q_update_value_spec(prev, r, prev)
    }
}

/// After `n` repeated updates the estimate is either inside the rounding
/// band around the fixed point, or at least `n` closer to it than it
/// started: convergence within a bounded number of updates.
pub proof fn lemma_q_convergence(q: int, r: int, n: nat)
    ensures
        abs(q_iter_spec(q, r, n) - 10 * r) <= 100 || abs(q_iter_spec(q, r, n) - 10 * r) + n <= abs(
            q - 10 * r,
        ),
    decreases n,
{
    if n > 0 {
        lemma_q_convergence(q, r, (n - 1) as nat);
        let prev = q_iter_spec(q, r, (n - 1) as nat);
        lemma_q_convergence_step(prev, r);
    }
}

/// Enough repetitions always land inside the band: the initial distance
/// itself bounds the number of updates needed.
pub proof fn lemma_q_convergence_bounded(q: int, r: int, n: nat)
    requires
        n >= abs(q - 10 * r),
    ensures
        abs(q_iter_spec(q, r, n) - 10 * r) <= 100,
{
    lemma_q_convergence(q, r, n);
}

} // verus!
