//! The observation/action bridge: pure, stateless, total mapping
//! between a world's vocabulary and the agent's.
//!
//! Totality is the point: an observation the agent has no use for maps to
//! its empty variant, and every agent action has a world-side counterpart,
//! so no tick can ever fail in the bridge. The agent therefore attaches
//! to any world that can express itself in the shared vocabulary.

use vstd::prelude::*;
use crate::events::{Action, AgentAction, AgentObservation, Observation};

verus! {

/// What the agent is shown for each world observation.
pub open spec fn map_obs_spec(obs: Observation) -> AgentObservation {
    match obs {
        Observation::GridSummary { alive, width, height } => AgentObservation::GridSummary {
            width,
            height,
        },
        Observation::StateVec(v) => AgentObservation::StateVec(v),
        Observation::Text(_) => AgentObservation::Empty,
        Observation::Empty => AgentObservation::Empty,
    }
}

/// What the world is handed for each agent action.
pub open spec fn map_act_spec(act: AgentAction) -> Action {
    match act {
        AgentAction::FlipCell { r, c } => Action::FlipCell { r, c },
        AgentAction::Perturb { which, delta } => Action::Perturb { which, delta },
        AgentAction::SetParam { name, val } => Action::SetParam { name, value: val },
        AgentAction::Noop => Action::Noop,
    }
}

/// Map a world observation into the agent's vocabulary.
pub fn map_obs(obs: Observation) -> (r: AgentObservation)
    ensures
        r == map_obs_spec(obs),
{
    match obs {
        Observation::GridSummary { alive, width, height } => AgentObservation::GridSummary {
            width,
            height,
        },
        Observation::StateVec(v) => AgentObservation::StateVec(v),
        Observation::Text(_) => AgentObservation::Empty,
        Observation::Empty => AgentObservation::Empty,
    }
}

/// Map an agent action into the world's vocabulary.
pub fn map_act(act: AgentAction) -> (r: Action)
    ensures
        r == map_act_spec(act),
{
    match act {
        AgentAction::FlipCell { r, c } => Action::FlipCell { r, c },
        AgentAction::Perturb { which, delta } => Action::Perturb { which, delta },
        AgentAction::SetParam { name, val } => Action::SetParam { name, value: val },
        AgentAction::Noop => Action::Noop,
    }
}

} // verus!
