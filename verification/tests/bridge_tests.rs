//! The bridge is total: every observation and every action maps across,
//! and the unusable ones degrade to the empty observation or the no-op.

use aletheia_core::events::{action_id, action_of_id};
use aletheia_core::{
    Action, AgentAction, AgentObservation, DiscreteAction, Observation, Vec3, map_act, map_obs,
};

#[test]
fn grid_summaries_keep_their_dimensions() {
    let r = map_obs(Observation::GridSummary { alive: 17, width: 32, height: 24 });
    match r {
        AgentObservation::GridSummary { width, height } => {
            assert_eq!(width, 32);
            assert_eq!(height, 24);
        }
        other => panic!("unexpected mapping: {:?}", other),
    }
}

#[test]
fn state_vectors_pass_through_unchanged() {
    let v = Vec3 { x: 5, y: -6, z: 7 };
    match map_obs(Observation::StateVec(v)) {
        AgentObservation::StateVec(w) => assert_eq!(v, w),
        other => panic!("unexpected mapping: {:?}", other),
    }
}

#[test]
fn unusable_observations_become_empty() {
    assert!(matches!(
        map_obs(Observation::Text(String::from("debug line"))),
        AgentObservation::Empty
    ));
    assert!(matches!(map_obs(Observation::Empty), AgentObservation::Empty));
}

#[test]
fn every_agent_action_maps_across() {
    match map_act(AgentAction::FlipCell { r: 3, c: 9 }) {
        Action::FlipCell { r, c } => {
            assert_eq!(r, 3);
            assert_eq!(c, 9);
        }
        other => panic!("unexpected mapping: {:?}", other),
    }
    match map_act(AgentAction::Perturb { which: 2, delta: -5_000_000 }) {
        Action::Perturb { which, delta } => {
            assert_eq!(which, 2);
            assert_eq!(delta, -5_000_000);
        }
        other => panic!("unexpected mapping: {:?}", other),
    }
    match map_act(AgentAction::SetParam { name: String::from("rho"), val: 28_000_000 }) {
        Action::SetParam { name, value } => {
            assert_eq!(name, "rho");
            assert_eq!(value, 28_000_000);
        }
        other => panic!("unexpected mapping: {:?}", other),
    }
    assert!(matches!(map_act(AgentAction::Noop), Action::Noop));
}

#[test]
fn action_identifiers_round_trip() {
    let all = [
        DiscreteAction::Noop,
        DiscreteAction::KickXPos,
        DiscreteAction::KickXNeg,
        DiscreteAction::KickYPos,
        DiscreteAction::KickYNeg,
        DiscreteAction::KickZPos,
        DiscreteAction::KickZNeg,
    ];
    for a in all {
        let id = action_id(a);
        assert!(id <= 6);
        assert_eq!(action_of_id(id), a);
    }
}
