//! The curiosity-driven tabular Q-learning agent.
//!
//! Every tick with a continuous observation runs one full
//! observe-learn-decide-report cycle:
//!
//! 1. the state is clamped and discretized to a canonical key;
//! 2. the learned one-step world model is consulted for what the agent
//!    predicted would follow its previous action, and the prediction error
//!    becomes a capped "surprise" bonus (a fixed moderate bonus when the
//!    pair was never tried — unexplored combinations are worth one look);
//! 3. the model is nudged toward the observed state by an equal-weight
//!    blend, and the value table is updated by the standard one-step rule,
//!    with reward shaped additively by the surprise bonus;
//! 4. the next action is drawn epsilon-greedily from the injected
//!    deterministic generator, and the exploration rate decays toward a
//!    floor it never crosses;
//! 5. a strong surprise on a reporting tick is announced as an insight,
//!    and on longer intervals a status summary goes out instead — at most
//!    one discovery per tick, insight first.
//!
//! Both learned tables only ever gain keys; nothing is deleted.

use vstd::prelude::*;
use std::collections::HashMap;
use crate::events::{
    AgentAction,
    AgentObservation,
    DiscoveryEvent,
    DiscreteAction,
    action_id,
    action_id_spec,
    action_of_id,
    action_of_id_spec,
};
use crate::fixed::{
    Vec3,
    MAG_LIMIT,
    Q_LIMIT,
    SCALE,
    clamp_mag,
    clamp_mag_spec,
    clamp_vec3,
    clamp_vec3_spec,
    dist,
    dist_spec,
    div_trunc,
    div_trunc_spec,
    in_mag3,
    lemma_div_trunc_fundamental,
    max_i64,
    min_i64,
};
use crate::discretize::{discretize, model_key, state_key_spec, STATE_KEY_LIMIT};
use crate::rng::{Lcg, lcg_next_spec, lcg_seed_spec};
use crate::table::{
    QEntry,
    row_best,
    row_best_spec,
    row_get,
    row_max,
    row_max_spec,
    row_set,
    row_set_spec,
    row_val,
    row_wf,
    lemma_row_max_bounds,
    lemma_row_set_props,
    lemma_row_val_bounds,
};
use crate::experimenter::Experimenter;
use crate::text::{dec_spec, push_two_dec, push_u64, two_dec_spec};
use vstd::string::StringExecFns;

verus! {

broadcast use vstd::std_specs::hash::group_hash_axioms;

/// Exploration rate at construction: one half.
pub const EPS_START: i64 = 500_000;

/// Floor under the exploration rate: five hundredths, never crossed.
pub const EPS_MIN: i64 = 50_000;

/// Numerator of the per-tick exploration decay factor (over 1000).
pub const EPS_DECAY_NUM: u64 = 995;

/// Denominator of the per-tick exploration decay factor.
pub const EPS_DECAY_DEN: u64 = 1_000;

/// Numerator of the discount factor (over its denominator: nine tenths).
pub const GAMMA_NUM: i64 = 9;

/// Denominator of the discount factor.
pub const GAMMA_DEN: u64 = 10;

/// The learning rate is one over this: one tenth.
pub const ALPHA_DEN: u64 = 10;

/// Gain applied to the prediction error before capping.
pub const SURPRISE_GAIN: i64 = 5;

/// Ceiling on the surprise bonus: fifty units.
pub const SURPRISE_CAP: i64 = 50_000_000;

/// Bonus for a (state, action) pair never tried before: five units.
pub const SURPRISE_FIRST: i64 = 5_000_000;

/// Surprise must exceed this for an insight: twenty-five units.
pub const INSIGHT_MIN: i64 = 25_000_000;

/// Insights are only announced on ticks at this interval.
pub const INSIGHT_EVERY: u64 = 60;

/// Status summaries go out on ticks at this longer interval.
pub const SUMMARY_EVERY: u64 = 300;

/// Magnitude of a kick along one axis: five units.
pub const KICK: i64 = 5_000_000;

/// Seed of the default-constructed generator.
pub const DEFAULT_SEED: u32 = 20_220_531;

/// Ghost model of the agent: everything its behaviour depends on.
pub struct AgentModel {
    /// Value table: state key to the row of learned action values.
    pub q: Map<u64, Seq<QEntry>>,
    /// World model: packed (state, action) key to the predicted next state.
    pub wm: Map<u64, Vec3>,
    /// Discrete action chosen on the previous tick.
    pub last_action: DiscreteAction,
    /// State key observed on the previous tick.
    pub last_key: u64,
    /// Clamped continuous state observed on the previous tick.
    pub last_state: Vec3,
    /// Current exploration rate, in ticks of one millionth.
    pub epsilon: int,
    /// State of the injected generator.
    pub rng: u32,
}

/// The agent: learned tables, one-tick memory, and hyperparameters.
pub struct QLearningAgent {
    q_table: HashMap<u64, Vec<QEntry>>,
    world_model: HashMap<u64, Vec3>,
    last_action: DiscreteAction,
    last_state_key: u64,
    last_state_vec: Vec3,
    epsilon: i64,
    rng: Lcg,
}

impl View for QLearningAgent {
    type V = AgentModel;

    closed spec fn view(&self) -> AgentModel {
        AgentModel {
            q: self.q_table@.map_values(|r: Vec<QEntry>| r@),
            wm: self.world_model@,
            last_action: self.last_action,
            last_key: self.last_state_key,
            last_state: self.last_state_vec,
            epsilon: self.epsilon as int,
            rng: self.rng.state,
        }
    }
}

/// Well-formedness of the model: finitely many learned keys, bounded rows
/// that are never empty, in-range predictions, an exploration rate between
/// floor and start, and memory inside its domains.
pub open spec fn model_wf(m: AgentModel) -> bool {
    &&& m.q.dom().finite()
    &&& m.wm.dom().finite()
    &&& forall|k: u64|
        m.q.dom().contains(k) ==> row_wf(#[trigger] m.q[k]) && m.q[k].len() >= 1
    &&& forall|k: u64| m.wm.dom().contains(k) ==> in_mag3(#[trigger] m.wm[k])
    &&& EPS_MIN <= m.epsilon <= EPS_START
    &&& m.last_key < STATE_KEY_LIMIT
    &&& in_mag3(m.last_state)
}

/// Row the model's value table holds for a key, empty when the key is new.
pub open spec fn table_row(q: Map<u64, Seq<QEntry>>, k: u64) -> Seq<QEntry> {
    if q.dom().contains(k) {
        q[k]
    } else {
        Seq::empty()
    }
}

/// Packed world-model key of the remembered (state, action) pair.
pub open spec fn prev_key_spec(m: AgentModel) -> u64 {
    (m.last_key * 8 + action_id_spec(m.last_action)) as u64
}

/// Canonical key of a clamped current state.
pub open spec fn cur_key_spec(cur: Vec3) -> u64 {
    state_key_spec(cur) as u64
}

/// Surprise of seeing `cur`: prediction error scaled and capped when the
/// remembered pair has a prediction, a fixed first-time bonus otherwise.
pub open spec fn surprise_spec(m: AgentModel, cur: Vec3) -> int {
    if m.wm.dom().contains(prev_key_spec(m)) {
        let scaled = dist_spec(m.wm[prev_key_spec(m)], cur) * SURPRISE_GAIN;
        if scaled < SURPRISE_CAP as int {
            scaled
        } else {
            SURPRISE_CAP as int
        }
    } else {
        SURPRISE_FIRST as int
    }
}

/// New prediction for the remembered pair: the equal-weight blend of the
/// stored prediction and the observed state, or the observed state when
/// nothing was stored.
pub open spec fn blend_spec(m: AgentModel, cur: Vec3) -> Vec3 {
    if m.wm.dom().contains(prev_key_spec(m)) {
        let p = m.wm[prev_key_spec(m)];
        Vec3 {
            x: div_trunc_spec(p.x + cur.x, 2) as i64,
            y: div_trunc_spec(p.y + cur.y, 2) as i64,
            z: div_trunc_spec(p.z + cur.z, 2) as i64,
        }
    } else {
        cur
    }
}

/// Best stored value of a state, zero when nothing is stored yet.
pub open spec fn max_q_spec(m: AgentModel, k: u64) -> int {
    if table_row(m.q, k).len() >= 1 {
        row_max_spec(table_row(m.q, k))
    } else {
        0
    }
}

/// Reward actually learned from: the clamped base reward plus surprise.
pub open spec fn effective_reward_spec(m: AgentModel, cur: Vec3, base: int) -> int {
    clamp_mag_spec(base) + surprise_spec(m, cur)
}

/// One tabular update: move a tenth of the way from the old estimate
/// toward the shaped reward plus the discounted best future value.
pub open spec fn q_update_value_spec(q0: int, eff: int, maxq: int) -> int {
    q0 + div_trunc_spec(
        eff + div_trunc_spec(GAMMA_NUM * maxq, GAMMA_DEN as int) - q0,
        ALPHA_DEN as int,
    )
}

/// The value written for the remembered pair when `cur` is observed.
pub open spec fn learned_q_spec(m: AgentModel, cur: Vec3, base: int) -> int {
    q_update_value_spec(
        row_val(table_row(m.q, m.last_key), action_id_spec(m.last_action)),
        effective_reward_spec(m, cur, base),
        max_q_spec(m, cur_key_spec(cur)),
    )
}

/// The value table after the learning step.
pub open spec fn q_after_spec(m: AgentModel, cur: Vec3, base: int) -> Map<u64, Seq<QEntry>> {
    m.q.insert(
        m.last_key,
        row_set_spec(
            table_row(m.q, m.last_key),
            action_id_spec(m.last_action),
            learned_q_spec(m, cur, base),
        ),
    )
}

/// The epsilon-greedy draw: explore on a small roll of the generator,
/// exploit the best stored action of the current state otherwise. Yields
/// the chosen action and the generator state left behind.
pub open spec fn decide_spec(
    q_after: Map<u64, Seq<QEntry>>,
    ck: u64,
    eps: int,
    rng0: u32,
) -> (DiscreteAction, u32) {
    let r1 = lcg_next_spec(rng0);
    if r1 as int % (SCALE as int) < eps {
        let r2 = lcg_next_spec(r1);
        (action_of_id_spec(r2 as int % 7), r2)
    } else {
        (action_of_id_spec(row_best_spec(table_row(q_after, ck))), r1)
    }
}

/// The exploration rate after one tick: decayed multiplicatively, floored.
pub open spec fn decay_spec(eps: int) -> int {
    let d = eps * (EPS_DECAY_NUM as int) / (EPS_DECAY_DEN as int);
    if d >= EPS_MIN as int {
        d
    } else {
        EPS_MIN as int
    }
}

/// An insight is due when surprise beats the threshold on a reporting tick.
pub open spec fn insight_due_spec(surprise: int, step: u64) -> bool {
    surprise > INSIGHT_MIN as int && step as int % (INSIGHT_EVERY as int) == 0
}

/// A summary is due on the longer interval, skipping the very first tick.
pub open spec fn summary_due_spec(step: u64) -> bool {
    step as int % (SUMMARY_EVERY as int) == 0 && step > 0
}

/// Topic line of an anomaly insight.
pub open spec fn insight_topic_spec() -> Seq<char> {
    "Anomaly Detected"@
}

/// Body of an anomaly insight: the raw prediction error, two decimals.
pub open spec fn insight_content_spec(surprise: int) -> Seq<char> {
    "Predicted and observed states diverge by "@ + two_dec_spec(
        surprise / (SURPRISE_GAIN as int),
    ) + "; reward spike"@
}

/// Body of a periodic status summary.
pub open spec fn summary_text_spec(n_states: int) -> Seq<char> {
    "Distinct states learned: "@ + dec_spec(n_states)
}

/// Everything one call of the learning policy does: how the model after
/// the call follows from the model before it, and what pair comes back.
/// A continuous observation runs the full observe-learn-decide-report
/// cycle; any other observation leaves the agent untouched and yields the
/// no-op with no discovery.
pub open spec fn act_relation(
    pre: AgentModel,
    post: AgentModel,
    obs: AgentObservation,
    reward: i64,
    step: u64,
    r: (AgentAction, Option<DiscoveryEvent>),
) -> bool {
    &&& pre.q.dom().subset_of(post.q.dom())
    &&& pre.wm.dom().subset_of(post.wm.dom())
    &&& post.epsilon >= EPS_MIN as int
    &&& !(obs matches AgentObservation::StateVec(_)) ==> post == pre && r.0 is Noop && r.1
        is None
    &&& obs matches AgentObservation::StateVec(v) ==> {
        let cv = clamp_vec3_spec(v);
        let base = reward as int;
        &&& post.wm == pre.wm.insert(prev_key_spec(pre), blend_spec(pre, cv))
        &&& post.q == q_after_spec(pre, cv, base)
        &&& post.epsilon == decay_spec(pre.epsilon)
        &&& post.last_state == cv
        &&& post.last_key == cur_key_spec(cv)
        &&& (post.last_action, post.rng) == decide_spec(
            q_after_spec(pre, cv, base),
            cur_key_spec(cv),
            pre.epsilon,
            pre.rng,
        )
        &&& r.0 == map_action_spec(post.last_action)
        &&& match r.1 {
            Some(DiscoveryEvent::Insight { topic, content }) => insight_due_spec(
                surprise_spec(pre, cv),
                step,
            ) && topic@ == insight_topic_spec() && content@ == insight_content_spec(
                surprise_spec(pre, cv),
            ),
            Some(DiscoveryEvent::Text(t)) => !insight_due_spec(surprise_spec(pre, cv), step)
                && summary_due_spec(step) && t@ == summary_text_spec(
                q_after_spec(pre, cv, base).dom().len() as int,
            ),
            None => !insight_due_spec(surprise_spec(pre, cv), step) && !summary_due_spec(step),
        }
    }
}

/// The continuous action a discrete choice stands for.
pub open spec fn map_action_spec(a: DiscreteAction) -> AgentAction {
    match a {
        DiscreteAction::Noop => AgentAction::Noop,
        DiscreteAction::KickXPos => AgentAction::Perturb { which: 0, delta: KICK },
        DiscreteAction::KickXNeg => AgentAction::Perturb { which: 0, delta: (-KICK) as i64 },
        DiscreteAction::KickYPos => AgentAction::Perturb { which: 1, delta: KICK },
        DiscreteAction::KickYNeg => AgentAction::Perturb { which: 1, delta: (-KICK) as i64 },
        DiscreteAction::KickZPos => AgentAction::Perturb { which: 2, delta: KICK },
        DiscreteAction::KickZNeg => AgentAction::Perturb { which: 2, delta: (-KICK) as i64 },
    }
}

/// The model of a freshly constructed agent whose generator starts from
/// the given seed: empty tables, the no-op sentinel memory at the origin,
/// and the starting exploration rate.
pub open spec fn fresh_agent_model(seed: u32) -> AgentModel {
    AgentModel {
        q: Map::empty(),
        wm: Map::empty(),
        last_action: DiscreteAction::Noop,
        last_key: cur_key_spec(Vec3 { x: 0, y: 0, z: 0 }),
        last_state: Vec3 { x: 0, y: 0, z: 0 },
        epsilon: EPS_START as int,
        rng: lcg_seed_spec(seed),
    }
}

impl QLearningAgent {
    /// Well-formedness carried across every call.
    pub open spec fn wf(&self) -> bool {
        model_wf(self@)
    }

    /// A fresh agent with the default generator seed.
    pub fn new() -> (r: QLearningAgent)
        ensures
            r.wf(),
            r@ == fresh_agent_model(DEFAULT_SEED),
    {
        QLearningAgent::with_seed(DEFAULT_SEED)
    }

    /// A fresh agent whose generator starts from the given seed, so the
    /// explore/exploit stream is reproducible.
    pub fn with_seed(seed: u32) -> (r: QLearningAgent)
        ensures
            r.wf(),
            r@ == fresh_agent_model(seed),
    {
        let origin = Vec3 { x: 0, y: 0, z: 0 };
        let key = discretize(origin);
        let r = QLearningAgent {
            q_table: HashMap::new(),
            world_model: HashMap::new(),
            last_action: DiscreteAction::Noop,
            last_state_key: key,
            last_state_vec: origin,
            epsilon: EPS_START,
            rng: Lcg::seeded(seed),
        };
        proof {
            assert(r@.q =~= Map::<u64, Seq<QEntry>>::empty());
            assert(r@.wm =~= Map::<u64, Vec3>::empty());
            assert(r@ == fresh_agent_model(seed));
        }
        r
    }

    /// Current exploration rate, for inspection; never below the floor.
    pub fn exploration_rate(&self) -> (r: i64)
        requires
            self.wf(),
        ensures
            r == self@.epsilon,
            EPS_MIN <= r <= EPS_START,
    {
        self.epsilon
    }

    /// Number of distinct state keys the value table has learned.
    pub fn distinct_states(&self) -> (r: usize)
        ensures
            r == self@.q.dom().len(),
    {
        proof {
            assert(self@.q.dom() =~= self.q_table@.dom());
        }
        self.q_table.len()
    }

    /// Number of (state, action) pairs the world model has learned.
    pub fn model_size(&self) -> (r: usize)
        ensures
            r == self@.wm.dom().len(),
    {
        self.world_model.len()
    }

    /// Learned value of one (state key, action) pair, zero when untried.
    pub fn q_value(&self, state_key: u64, action: DiscreteAction) -> (r: i64)
        requires
            self.wf(),
        ensures
            r == row_val(table_row(self@.q, state_key), action_id_spec(action)),
    {
        let aid = action_id(action);
        match self.q_table.get(&state_key) {
            Some(row) => {
                proof {
                    assert(self@.q.dom().contains(state_key));
                    assert(self@.q[state_key] == row@);
                }
                match row_get(row, aid) {
                    Some(v) => v,
                    None => {
                        proof {
                            crate::table::lemma_row_val_absent(row@, aid as int);
                        }
                        0
                    },
                }
            },
            None => {
                proof {
                    assert(!self@.q.dom().contains(state_key));
                }
                0
            },
        }
    }

    /// Canonical key of a continuous state, after clamping.
    pub fn discretize(&self, state: Vec3) -> (r: u64)
        ensures
            r == cur_key_spec(clamp_vec3_spec(state)),
            r < STATE_KEY_LIMIT,
    {
        let cv = clamp_vec3(state);
        discretize(cv)
    }

    /// The fixed continuous action behind each discrete choice.
    pub fn map_action(&self, action: DiscreteAction) -> (r: AgentAction)
        ensures
            r == map_action_spec(action),
    {
        match action {
            DiscreteAction::Noop => AgentAction::Noop,
            DiscreteAction::KickXPos => AgentAction::Perturb { which: 0, delta: KICK },
            DiscreteAction::KickXNeg => AgentAction::Perturb { which: 0, delta: -KICK },
            DiscreteAction::KickYPos => AgentAction::Perturb { which: 1, delta: KICK },
            DiscreteAction::KickYNeg => AgentAction::Perturb { which: 1, delta: -KICK },
            DiscreteAction::KickZPos => AgentAction::Perturb { which: 2, delta: KICK },
            DiscreteAction::KickZNeg => AgentAction::Perturb { which: 2, delta: -KICK },
        }
    }

    /// Best stored value of a state key, zero when nothing is stored.
    /// Callers needing the spec-level bound get it from the row bounds.
    pub fn get_max_q(&self, state_key: u64) -> (r: i64)
        requires
            self.wf(),
        ensures
            r == max_q_spec(self@, state_key),
            -Q_LIMIT <= r <= Q_LIMIT,
    {
        match self.q_table.get(&state_key) {
            Some(row) => {
                proof {
                    assert(self@.q.dom().contains(state_key));
                    assert(self@.q[state_key] == row@);
                    lemma_row_max_bounds(row@);
                }
                row_max(row)
            },
            None => {
                proof {
                    assert(!self@.q.dom().contains(state_key));
                }
                0
            },
        }
    }
}

/// One tabular update can never drive an estimate past the value bound:
/// the new estimate is nine tenths of the old one plus a tenth of a
/// bounded target, up to rounding.
pub proof fn lemma_q_update_bounded(q0: int, eff: int, maxq: int)
    requires
        -Q_LIMIT <= q0 <= Q_LIMIT as int,
        -Q_LIMIT <= maxq <= Q_LIMIT as int,
        -(MAG_LIMIT + SURPRISE_CAP) <= eff <= MAG_LIMIT + SURPRISE_CAP as int,
    ensures
        -Q_LIMIT <= q_update_value_spec(q0, eff, maxq) <= Q_LIMIT as int,
{
    let g = div_trunc_spec(GAMMA_NUM * maxq, GAMMA_DEN as int);
    lemma_div_trunc_fundamental(GAMMA_NUM * maxq, GAMMA_DEN as int);
    let delta = eff + g - q0;
    lemma_div_trunc_fundamental(delta, ALPHA_DEN as int);
}

/// Bound on the discounted best future value after truncating division.
pub proof fn lemma_gamma_term_bounded(maxq: int)
    requires
        -Q_LIMIT <= maxq <= Q_LIMIT as int,
    ensures
        -2 * Q_LIMIT <= div_trunc_spec(GAMMA_NUM * maxq, GAMMA_DEN as int) <= 2 * Q_LIMIT as int,
{
    lemma_div_trunc_fundamental(GAMMA_NUM * maxq, GAMMA_DEN as int);
}

/// An insight event quantifying the given surprise.
fn insight_event(surprise: i64) -> (e: DiscoveryEvent)
    requires
        0 <= surprise,
    ensures
        e matches DiscoveryEvent::Insight { topic, content } && topic@ == insight_topic_spec()
            && content@ == insight_content_spec(surprise as int),
{
    let topic = String::from_str("Anomaly Detected");
    let mut content = String::from_str("Predicted and observed states diverge by ");
    push_two_dec(&mut content, (surprise as u64) / (SURPRISE_GAIN as u64));
    content.append("; reward spike");
    proof {
        assert(content@ =~= insight_content_spec(surprise as int));
    }
    DiscoveryEvent::Insight { topic, content }
}

/// A periodic status summary naming the count of learned states.
fn summary_event(n_states: usize) -> (e: DiscoveryEvent)
    ensures
        e matches DiscoveryEvent::Text(t) && t@ == summary_text_spec(n_states as int),
{
    let mut t = String::from_str("Distinct states learned: ");
    push_u64(&mut t, n_states as u64);
    DiscoveryEvent::Text(t)
}

impl Experimenter for QLearningAgent {
    open spec fn inv(&self) -> bool {
        self.wf()
    }

    fn act(&mut self, obs: &AgentObservation, reward: i64, step: u64) -> (r: (
        AgentAction,
        Option<DiscoveryEvent>,
    ))
        ensures
            act_relation(old(self)@, final(self)@, *obs, reward, step, r),
    {
        let ghost m = self@;
        let v: Vec3 = match obs {
            AgentObservation::StateVec(w) => *w,
            _ => {
                return (AgentAction::Noop, None);
            },
        };

        // Observe: clamp, then discretize to the canonical key.
        let cv = clamp_vec3(v);
        let ck = discretize(cv);
        let aid = action_id(self.last_action);
        let pk = model_key(self.last_state_key, aid);
        proof {
            assert(pk == prev_key_spec(m));
        }

        // Predict and measure surprise; prepare the blended prediction.
        let mut surprise: i64 = SURPRISE_FIRST;
        let mut blended: Vec3 = cv;
        match self.world_model.get(&pk) {
            Some(pred) => {
                let p = *pred;
                proof {
                    assert(m.wm.dom().contains(pk));
                    assert(m.wm[pk] == p);
                    assert(in_mag3(p));
                }
                let err = dist(p, cv);
                surprise = min_i64(err * SURPRISE_GAIN, SURPRISE_CAP);
                proof {
                    lemma_div_trunc_fundamental(p.x + cv.x, 2);
                    lemma_div_trunc_fundamental(p.y + cv.y, 2);
                    lemma_div_trunc_fundamental(p.z + cv.z, 2);
                }
                blended = Vec3 {
                    x: div_trunc(p.x + cv.x, 2),
                    y: div_trunc(p.y + cv.y, 2),
                    z: div_trunc(p.z + cv.z, 2),
                };
            },
            None => {
                proof {
                    assert(!m.wm.dom().contains(pk));
                }
            },
        }
        proof {
            assert(surprise == surprise_spec(m, cv));
            assert(blended == blend_spec(m, cv));
            assert(0 <= surprise <= SURPRISE_CAP);
            assert(in_mag3(blended));
        }

        // Update the world model toward the observed state.
        self.world_model.insert(pk, blended);
        proof {
            assert(self@.wm == m.wm.insert(pk, blend_spec(m, cv)));
            assert(self@.q == m.q);
        }

        // Learn: shape the reward and apply the one-step tabular update.
        let eff = clamp_mag(reward) + surprise;
        let maxq = self.get_max_q(ck);
        proof {
            assert(max_q_spec(self@, ck) == max_q_spec(m, ck)) by {
                assert(table_row(self@.q, ck) == table_row(m.q, ck));
            }
        }
        let mut row: Vec<QEntry> = match self.q_table.remove(&self.last_state_key) {
            Some(rw) => rw,
            None => Vec::new(),
        };
        proof {
            if m.q.dom().contains(self.last_state_key) {
                assert(row@ == table_row(m.q, self.last_state_key));
            } else {
                assert(row@ =~= table_row(m.q, self.last_state_key));
            }
            assert(row_wf(row@));
        }
        let q0: i64 = match row_get(&row, aid) {
            Some(x) => x,
            None => {
                proof {
                    crate::table::lemma_row_val_absent(row@, aid as int);
                }
                0
            },
        };
        proof {
            lemma_row_val_bounds(row@, aid as int);
            lemma_gamma_term_bounded(maxq as int);
        }
        let gmax = div_trunc(GAMMA_NUM * maxq, GAMMA_DEN);
        let delta = eff + gmax - q0;
        proof {
            lemma_div_trunc_fundamental(delta as int, ALPHA_DEN as int);
        }
        let stepv = div_trunc(delta, ALPHA_DEN);
        let q1 = q0 + stepv;
        proof {
            lemma_q_update_bounded(q0 as int, eff as int, maxq as int);
            assert(q1 == learned_q_spec(m, cv, reward as int));
        }
        row_set(&mut row, aid, q1);
        proof {
            lemma_row_set_props(
                table_row(m.q, m.last_key),
                aid as int,
                q1 as int,
            );
        }
        let lk = self.last_state_key;
        self.q_table.insert(lk, row);
        proof {
            assert(self@.q =~= q_after_spec(m, cv, reward as int));
            assert(model_wf(self@)) by {
                let q2 = self@.q;
                assert forall|k: u64| q2.dom().contains(k) implies row_wf(#[trigger] q2[k])
                    && q2[k].len() >= 1 by {
                    if k != lk {
                        assert(q2[k] == m.q[k]);
                    }
                }
            }
        }

        // Decide by the epsilon-greedy rule, exploration rate as it stands.
        let ghost q_after = self@.q;
        let roll = self.rng.next_draw();
        let chosen: DiscreteAction;
        if ((roll % 1_000_000) as i64) < self.epsilon {
            let roll2 = self.rng.next_draw();
            chosen = action_of_id((roll2 % 7) as u8);
        } else {
            let best: u8 = match self.q_table.get(&ck) {
                Some(rw) => {
                    proof {
                        assert(self@.q.dom().contains(ck));
                        assert(self@.q[ck] == rw@);
                    }
                    row_best(rw)
                },
                None => {
                    proof {
                        assert(!self@.q.dom().contains(ck));
                    }
                    6
                },
            };
            chosen = action_of_id(best);
        }
        proof {
            assert((chosen, self.rng.state) == decide_spec(q_after, ck, m.epsilon, m.rng));
        }

        // Remember this tick for the next one.
        self.last_state_key = ck;
        self.last_state_vec = cv;
        self.last_action = chosen;

        // Decay exploration multiplicatively, floored at the minimum.
        let e2 = ((self.epsilon as u64) * EPS_DECAY_NUM / EPS_DECAY_DEN) as i64;
        self.epsilon = max_i64(e2, EPS_MIN);
        proof {
            assert(self.epsilon as int == decay_spec(m.epsilon));
            assert(e2 as int <= m.epsilon) by (nonlinear_arith)
                requires
                    0 <= m.epsilon,
                    e2 as int == m.epsilon * (EPS_DECAY_NUM as int) / (EPS_DECAY_DEN as int),
                    EPS_DECAY_NUM < EPS_DECAY_DEN,
            ;
        }

        // Report: a strong surprise on a reporting tick becomes an insight;
        // otherwise the longer interval may yield a status summary.
        let disc: Option<DiscoveryEvent> = if surprise > INSIGHT_MIN && step % INSIGHT_EVERY
            == 0 {
            Some(insight_event(surprise))
        } else if step % SUMMARY_EVERY == 0 && step > 0 {
            let n = self.q_table.len();
            proof {
                assert(self@.q.dom() =~= self.q_table@.dom());
            }
            Some(summary_event(n))
        } else {
            None
        };
        let action_out = self.map_action(chosen);
        (action_out, disc)
    }
}

/// Tags selecting an experimenter implementation at construction time.
pub enum BrainType {
    QLearner,
    Gardener,
    Mock,
}

/// One value standing for any of the interchangeable experimenters.
pub enum Brain {
    QLearner(QLearningAgent),
    Gardener(crate::experimenter::GardenerAgent),
    Mock(crate::experimenter::MockExperimenter),
}

impl Experimenter for Brain {
    open spec fn inv(&self) -> bool {
        match self {
            Brain::QLearner(a) => a.inv(),
            Brain::Gardener(a) => a.inv(),
            Brain::Mock(a) => a.inv(),
        }
    }

    fn act(&mut self, obs: &AgentObservation, reward: i64, step: u64) -> (r: (
        AgentAction,
        Option<DiscoveryEvent>,
    ))
        ensures
            *old(self) matches Brain::QLearner(pre) ==> (*final(self) matches Brain::QLearner(
                post,
            ) && act_relation(pre@, post@, *obs, reward, step, r)),
            *old(self) is Gardener ==> *final(self) == *old(self) && r.0 is Noop && r.1 is None,
            *old(self) is Mock ==> *final(self) == *old(self) && r.0 is Noop && r.1 is None,
    {
        match self {
            Brain::QLearner(a) => a.act(obs, reward, step),
            Brain::Gardener(a) => a.act(obs, reward, step),
            Brain::Mock(a) => a.act(obs, reward, step),
        }
    }
}

/// Build the experimenter a tag names, ready to be driven.
pub fn create_brain(brain_type: BrainType) -> (r: Brain)
    ensures
        r.inv(),
        brain_type is QLearner ==> (r matches Brain::QLearner(a) && a@ == fresh_agent_model(
            DEFAULT_SEED,
        )),
        brain_type is Gardener ==> r is Gardener,
        brain_type is Mock ==> r is Mock,
{
    match brain_type {
        BrainType::QLearner => Brain::QLearner(QLearningAgent::new()),
        BrainType::Gardener => Brain::Gardener(crate::experimenter::GardenerAgent::new()),
        BrainType::Mock => Brain::Mock(crate::experimenter::MockExperimenter::new()),
    }
}

} // verus!
