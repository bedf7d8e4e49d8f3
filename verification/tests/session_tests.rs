//! The session loop and the world boundary, driven with small test worlds.

use aletheia_core::{
    Action, AgentAction, AgentObservation, BrainType, DiscoveryEvent, Experimentable,
    Experimenter, GardenerAgent, MockExperimenter, Observation, ParamValue, Session, SimState,
    Simulation, Vec3, create_brain,
};

/// A deterministic little world: one integer state with an autonomous
/// step rule, perturbable along the first axis.
#[derive(Clone, PartialEq, Debug)]
struct TinyWorld {
    state: i64,
    generations: u64,
}

impl TinyWorld {
    fn new(seed_state: i64) -> TinyWorld {
        TinyWorld { state: seed_state, generations: 0 }
    }
}

impl Simulation for TinyWorld {
    fn step(&mut self) {
        self.state = self.state.wrapping_mul(3).wrapping_add(1_000_000) % 900_000_000;
        self.generations += 1;
    }

    fn get_state(&self) -> SimState {
        SimState::Points(vec![Vec3 { x: self.state, y: 0, z: 0 }])
    }

    fn set_param(&mut self, _key: &str, _value: ParamValue) {}

    fn is_experimentable(&self) -> bool {
        true
    }
}

impl Experimentable for TinyWorld {
    fn observe(&self) -> Observation {
        Observation::StateVec(Vec3 { x: self.state, y: 0, z: 0 })
    }

    fn apply_action(&mut self, action: Action) {
        if let Action::Perturb { which: 0, delta } = action {
            self.state = self.state.wrapping_add(delta);
        }
    }

    fn reward(&self) -> i64 {
        if self.state >= 0 { 1_000_000 } else { 0 }
    }
}

/// A world without the experimentation capability: stepping is all it does.
struct PlainWorld {
    ticks: u64,
}

impl Simulation for PlainWorld {
    fn step(&mut self) {
        self.ticks += 1;
    }

    fn get_state(&self) -> SimState {
        SimState::Grid { offset_x: 0, offset_y: 0, width: 1, height: 1, cells: vec![false] }
    }

    fn set_param(&mut self, _key: &str, _value: ParamValue) {}
}

impl Experimentable for PlainWorld {}

#[test]
fn baseline_agent_leaves_the_world_untouched() {
    // One hundred ticks with the no-op agent equal one hundred bare steps.
    let mut session = Session::new(TinyWorld::new(123_456), GardenerAgent::new());
    for _ in 0..100 {
        let d = session.tick();
        assert!(d.is_none());
    }
    assert_eq!(session.step_count, 100);

    let mut direct = TinyWorld::new(123_456);
    for _ in 0..100 {
        direct.step();
    }
    assert_eq!(session.sim, direct);
    assert_eq!(session.get_state(), direct.get_state());
}

#[test]
fn mock_agent_is_also_a_no_op() {
    let mut session = Session::new(TinyWorld::new(7), MockExperimenter::new());
    for _ in 0..25 {
        assert!(session.tick().is_none());
    }
    assert_eq!(session.step_count, 25);
    let mut direct = TinyWorld::new(7);
    for _ in 0..25 {
        direct.step();
    }
    assert_eq!(session.sim, direct);
}

#[test]
fn noop_application_is_idempotent() {
    // Applying the no-op leaves observation and reward exactly where the
    // world's own dynamics would have them.
    let mut with_noop = TinyWorld::new(42);
    let untouched = with_noop.clone();
    with_noop.apply_action(Action::Noop);
    assert_eq!(with_noop, untouched);
    let mut a = with_noop.clone();
    let mut b = untouched.clone();
    a.step();
    b.step();
    assert_eq!(a, b);
    assert_eq!(a.reward(), b.reward());
    match (a.observe(), b.observe()) {
        (Observation::StateVec(va), Observation::StateVec(vb)) => assert_eq!(va, vb),
        other => panic!("unexpected observations: {:?}", other),
    }
}

#[test]
fn plain_worlds_are_driven_by_stepping_alone() {
    let mut session = Session::new(PlainWorld { ticks: 0 }, create_brain(BrainType::QLearner));
    for _ in 0..50 {
        assert!(session.tick().is_none());
    }
    assert_eq!(session.step_count, 50);
    assert_eq!(session.sim.ticks, 50);
}

#[test]
fn session_counts_ticks_and_reports_discoveries() {
    let mut session = Session::new(TinyWorld::new(1), create_brain(BrainType::QLearner));
    let mut texts = 0;
    let mut insights = 0;
    for _ in 0..700 {
        match session.tick() {
            Some(DiscoveryEvent::Text(t)) => {
                assert!(t.starts_with("Distinct states learned: "));
                texts += 1;
            }
            Some(DiscoveryEvent::Insight { topic, .. }) => {
                assert_eq!(topic, "Anomaly Detected");
                insights += 1;
            }
            None => {}
        }
    }
    assert_eq!(session.step_count, 700);
    assert!(texts + insights >= 1, "seven hundred ticks yielded no discovery at all");
}

#[test]
fn factory_tags_select_the_agents() {
    let mut q = create_brain(BrainType::QLearner);
    let mut g = create_brain(BrainType::Gardener);
    let mut m = create_brain(BrainType::Mock);
    let obs = AgentObservation::StateVec(Vec3 { x: 0, y: 0, z: 0 });
    let (ga, gd) = g.act(&obs, 0, 1);
    let (ma, md) = m.act(&obs, 0, 1);
    assert!(matches!(ga, AgentAction::Noop) && gd.is_none());
    assert!(matches!(ma, AgentAction::Noop) && md.is_none());
    // The learner, by contrast, does act on continuous state.
    let (qa, _) = q.act(&obs, 0, 1);
    assert!(matches!(qa, AgentAction::Perturb { .. } | AgentAction::Noop));
}

#[test]
fn factory_learner_is_a_fresh_default_agent() {
    // The factory hands out exactly what a default construction yields:
    // driven with one observation sequence, the two stay in lockstep.
    let mut from_factory = create_brain(BrainType::QLearner);
    let mut direct = aletheia_core::QLearningAgent::new();
    for step in 1..200u64 {
        let obs = AgentObservation::StateVec(Vec3 {
            x: (step as i64 % 9) * 250_000_000,
            y: -(step as i64),
            z: 3_000_000,
        });
        let (fa, fd) = from_factory.act(&obs, 1_500_000, step);
        let (da, dd) = direct.act(&obs, 1_500_000, step);
        match (fa, da) {
            (AgentAction::Noop, AgentAction::Noop) => {}
            (
                AgentAction::Perturb { which: w1, delta: d1 },
                AgentAction::Perturb { which: w2, delta: d2 },
            ) => {
                assert_eq!(w1, w2);
                assert_eq!(d1, d2);
            }
            other => panic!("factory and direct agents diverged: {:?}", other),
        }
        assert_eq!(fd, dd);
    }
}

#[test]
fn gardener_ignores_everything_it_is_shown() {
    let mut g = GardenerAgent::new();
    let observations = [
        AgentObservation::Empty,
        AgentObservation::GridSummary { width: 8, height: 8 },
        AgentObservation::StateVec(Vec3 { x: 1, y: 2, z: 3 }),
    ];
    for (i, obs) in observations.iter().enumerate() {
        let (a, d) = g.act(obs, 9_999_999, i as u64);
        assert!(matches!(a, AgentAction::Noop));
        assert!(d.is_none());
    }
}
