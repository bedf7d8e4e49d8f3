//! The curiosity agent: first-tick safety, exploration floor, table
//! growth, insight reporting, summaries, and reward convergence.

use aletheia_core::{
    AgentAction, AgentObservation, DiscoveryEvent, DiscreteAction, Experimenter,
    QLearningAgent, Vec3,
};

fn sv(x: i64, y: i64, z: i64) -> AgentObservation {
    AgentObservation::StateVec(Vec3 { x, y, z })
}

fn action_fingerprint(a: &AgentAction) -> (u8, i64) {
    match a {
        AgentAction::Perturb { which, delta } => (*which, *delta),
        AgentAction::Noop => (255, 0),
        _ => (254, 0),
    }
}

#[test]
fn first_tick_is_safe() {
    // A fresh agent has no "previous" entry, yet one call works and hands
    // back a well-shaped pair.
    let mut a = QLearningAgent::new();
    let (action, discovery) = a.act(&sv(0, 0, 0), 0, 1);
    match action {
        AgentAction::Perturb { which, delta } => {
            assert!(which <= 2);
            assert!(delta == 5_000_000 || delta == -5_000_000);
        }
        AgentAction::Noop => {}
        other => panic!("first tick chose an out-of-vocabulary action: {:?}", other),
    }
    assert!(discovery.is_none());
}

#[test]
fn first_tick_with_seed_seven_kicks_x_up() {
    let mut a = QLearningAgent::with_seed(7);
    let (action, discovery) = a.act(&sv(0, 0, 0), 0, 1);
    match action {
        AgentAction::Perturb { which, delta } => {
            assert_eq!(which, 0);
            assert_eq!(delta, 5_000_000);
        }
        other => panic!("expected the x-axis kick, got {:?}", other),
    }
    assert!(discovery.is_none());
}

#[test]
fn non_state_observations_fall_to_noop() {
    let mut a = QLearningAgent::with_seed(3);
    let before = a.exploration_rate();
    let (act1, d1) = a.act(&AgentObservation::Empty, 7_000_000, 1);
    let (act2, d2) = a.act(&AgentObservation::GridSummary { width: 4, height: 4 }, 0, 2);
    assert!(matches!(act1, AgentAction::Noop));
    assert!(matches!(act2, AgentAction::Noop));
    assert!(d1.is_none() && d2.is_none());
    assert_eq!(a.exploration_rate(), before);
    assert_eq!(a.distinct_states(), 0);
    assert_eq!(a.model_size(), 0);
}

#[test]
fn exploration_rate_never_dips_below_the_floor() {
    let mut a = QLearningAgent::with_seed(21);
    let mut prev = a.exploration_rate();
    assert_eq!(prev, 500_000);
    for step in 1..3_000u64 {
        a.act(&sv((step as i64 % 5) * 400_000, 0, 0), 0, step);
        let eps = a.exploration_rate();
        assert!(eps >= 50_000, "exploration rate fell to {} at step {}", eps, step);
        assert!(eps <= prev, "exploration rate rose from {} to {}", prev, eps);
        prev = eps;
    }
    assert_eq!(a.exploration_rate(), 50_000);
}

#[test]
fn one_tick_decays_exploration_by_the_fixed_factor() {
    let mut a = QLearningAgent::with_seed(21);
    a.act(&sv(0, 0, 0), 0, 1);
    assert_eq!(a.exploration_rate(), 497_500);
}

#[test]
fn learned_tables_grow_monotonically() {
    let mut a = QLearningAgent::with_seed(5);
    let mut q_count = 0;
    let mut wm_count = 0;
    for step in 1..500u64 {
        let wiggle = (step as i64 % 7) * 300_000_000;
        a.act(&sv(wiggle, -wiggle, (step as i64 % 3) * 5_000_000), 1_000_000, step);
        let q_now = a.distinct_states();
        let wm_now = a.model_size();
        assert!(q_now >= q_count, "value table shrank at step {}", step);
        assert!(wm_now >= wm_count, "world model shrank at step {}", step);
        q_count = q_now;
        wm_count = wm_now;
    }
    assert!(q_count >= 2);
    assert!(wm_count >= 2);
}

#[test]
fn same_seed_same_behaviour() {
    let mut a = QLearningAgent::with_seed(2024);
    let mut b = QLearningAgent::with_seed(2024);
    for step in 1..100u64 {
        let obs = sv((step as i64 % 11) * 123_456_789, step as i64, -1_000_000);
        let (aa, _) = a.act(&obs, 2_000_000, step);
        let (ba, _) = b.act(&obs, 2_000_000, step);
        assert_eq!(action_fingerprint(&aa), action_fingerprint(&ba));
    }
    assert_eq!(a.exploration_rate(), b.exploration_rate());
    assert_eq!(a.distinct_states(), b.distinct_states());
}

#[test]
fn sharp_deviation_on_a_reporting_tick_yields_an_insight() {
    // Teach the agent a steady state, then yank the state far away on a
    // tick that is a multiple of the reporting interval. The prediction
    // error blows through the cap, so the insight quantifies exactly the
    // capped surprise: 50 / 5 = 10 units of error.
    let mut a = QLearningAgent::with_seed(7);
    let steady = sv(1_000_000, 2_000_000, 3_000_000);
    for step in 1..=30u64 {
        let (_, d) = a.act(&steady, 0, step);
        assert!(d.is_none(), "unexpected discovery during warm-up at step {}", step);
    }
    let (_, discovery) = a.act(&sv(500_000_000, 0, 0), 0, 60);
    match discovery {
        Some(DiscoveryEvent::Insight { topic, content }) => {
            assert_eq!(topic, "Anomaly Detected");
            assert_eq!(
                content,
                "Predicted and observed states diverge by 10.00; reward spike"
            );
        }
        other => panic!("expected an insight, got {:?}", other),
    }
}

#[test]
fn the_same_deviation_off_the_reporting_tick_stays_quiet() {
    let mut a = QLearningAgent::with_seed(7);
    let steady = sv(1_000_000, 2_000_000, 3_000_000);
    for step in 1..=30u64 {
        a.act(&steady, 0, step);
    }
    let (_, discovery) = a.act(&sv(500_000_000, 0, 0), 0, 61);
    assert!(discovery.is_none());
}

#[test]
fn summary_goes_out_on_the_long_interval() {
    let mut a = QLearningAgent::with_seed(9);
    let (_, discovery) = a.act(&sv(0, 0, 0), 0, 300);
    match discovery {
        Some(DiscoveryEvent::Text(t)) => {
            assert_eq!(t, "Distinct states learned: 1");
        }
        other => panic!("expected a status summary, got {:?}", other),
    }
}

#[test]
fn q_value_converges_to_ten_times_the_reward() {
    // Constant state, constant reward of two units, zero further rewards:
    // the fixed point of the update is reward / (1 - 0.9) = twenty units.
    let mut a = QLearningAgent::with_seed(11);
    let steady = Vec3 { x: 1_000_000, y: 2_000_000, z: 3_000_000 };
    for step in 1..=5_000u64 {
        a.act(&AgentObservation::StateVec(steady), 2_000_000, step);
    }
    let key = a.discretize(steady);
    let best = a.get_max_q(key);
    assert!(
        (best - 20_000_000).abs() <= 150,
        "best value {} did not settle near 20_000_000",
        best
    );
}

#[test]
fn the_first_update_writes_exactly_one_tenth_of_the_bonus() {
    // First tick from the origin: old estimate 0, best future value 0,
    // effective reward = first-time surprise of five units, so the rule
    // Q += (reward + 0.9 * max - Q) / 10 writes exactly half a unit under
    // (origin key, no-op), the remembered sentinel pair.
    let mut a = QLearningAgent::with_seed(31);
    let origin = Vec3 { x: 0, y: 0, z: 0 };
    let key = a.discretize(origin);
    a.act(&AgentObservation::StateVec(origin), 0, 1);
    assert_eq!(a.q_value(key, DiscreteAction::Noop), 500_000);
    assert_eq!(a.distinct_states(), 1);
    assert_eq!(a.model_size(), 1);
}

#[test]
fn every_discrete_action_maps_to_its_fixed_kick() {
    let a = QLearningAgent::new();
    let cases = [
        (DiscreteAction::KickXPos, 0u8, 5_000_000i64),
        (DiscreteAction::KickXNeg, 0, -5_000_000),
        (DiscreteAction::KickYPos, 1, 5_000_000),
        (DiscreteAction::KickYNeg, 1, -5_000_000),
        (DiscreteAction::KickZPos, 2, 5_000_000),
        (DiscreteAction::KickZNeg, 2, -5_000_000),
    ];
    for (d, w, k) in cases {
        match a.map_action(d) {
            AgentAction::Perturb { which, delta } => {
                assert_eq!(which, w);
                assert_eq!(delta, k);
            }
            other => panic!("{:?} mapped to {:?}", d, other),
        }
    }
    assert!(matches!(a.map_action(DiscreteAction::Noop), AgentAction::Noop));
}

#[test]
fn rewards_out_of_range_are_clamped_not_fatal() {
    let mut a = QLearningAgent::with_seed(13);
    for step in 1..50u64 {
        a.act(&sv(0, 0, 0), i64::MAX - 1, step);
        a.act(&sv(0, 0, 0), i64::MIN + 1, step);
    }
    assert!(a.exploration_rate() >= 50_000);
    assert!(a.distinct_states() >= 1);
}
