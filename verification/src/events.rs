//! The shared vocabulary of the loop: observations a world can report,
//! actions that can be applied to it, the agent-facing copies of both, and
//! the discovery events an agent may emit for display.
//!
//! Worlds and agents never share representation: the bridge in
//! [`crate::bridge`] maps one vocabulary onto the other as a total function.

use vstd::prelude::*;
use crate::fixed::Vec3;

verus! {

/// A qualitative report from the agent, for the presentation layer.
#[derive(Clone, Debug, PartialEq)]
pub enum DiscoveryEvent {
    /// A plain status line.
    Text(String),
    /// A named insight with a short quantitative body.
    Insight { topic: String, content: String },
}

/// The agent's fixed set of discrete actions: a fixed-magnitude kick along
/// one axis in either direction, or doing nothing.
#[derive(Clone, Copy, Debug, PartialEq, Eq, Structural)]
pub enum DiscreteAction {
    Noop,
    KickXPos,
    KickXNeg,
    KickYPos,
    KickYNeg,
    KickZPos,
    KickZNeg,
}

/// An action in the agent's vocabulary, not yet mapped for a world.
#[derive(Clone, Debug)]
pub enum AgentAction {
    FlipCell { r: usize, c: usize },
    Perturb { which: u8, delta: i64 },
    SetParam { name: String, val: i64 },
    Noop,
}

/// An observation in the agent's vocabulary, as the bridge hands it over.
#[derive(Clone, Debug)]
pub enum AgentObservation {
    GridSummary { width: usize, height: usize },
    StateVec(Vec3),
    Empty,
}

/// An action in a world's vocabulary.
#[derive(Clone, Debug)]
pub enum Action {
    /// For a cellular world: flip the cell at (r, c) of the viewport.
    FlipCell { r: usize, c: usize },
    /// For a continuous world: add a delta to one state axis.
    Perturb { which: u8, delta: i64 },
    /// Change a named parameter, best effort.
    SetParam { name: String, value: i64 },
    /// Do nothing.
    Noop,
}

/// A compact observation a world hands to the loop each tick.
#[derive(Clone, Debug)]
pub enum Observation {
    /// Summary statistics of a cellular world.
    GridSummary { alive: usize, width: usize, height: usize },
    /// Latest state vector of a continuous world.
    StateVec(Vec3),
    /// Free-form debugging text.
    Text(String),
    /// Nothing to report.
    Empty,
}

/// The renderable state a world exposes to the presentation layer.
#[derive(Clone, Debug, PartialEq)]
pub enum SimState {
    Grid { offset_x: i64, offset_y: i64, width: u32, height: u32, cells: Vec<bool> },
    Points(Vec<Vec3>),
}

/// A runtime parameter value a world may accept; unknown keys are ignored.
#[derive(Clone, Debug)]
pub enum ParamValue {
    Bool(bool),
    Int(i64),
    Scalar(i64),
    Text(String),
}

/// The small integer identifier a discrete action is tabled under.
pub open spec fn action_id_spec(a: DiscreteAction) -> int {
    match a {
        DiscreteAction::KickXPos => 0,
        DiscreteAction::KickXNeg => 1,
        DiscreteAction::KickYPos => 2,
        DiscreteAction::KickYNeg => 3,
        DiscreteAction::KickZPos => 4,
        DiscreteAction::KickZNeg => 5,
        DiscreteAction::Noop => 6,
    }
}

/// The discrete action a small integer identifier stands for.
pub open spec fn action_of_id_spec(i: int) -> DiscreteAction {
    if i == 0 {
        DiscreteAction::KickXPos
    } else if i == 1 {
        DiscreteAction::KickXNeg
    } else if i == 2 {
        DiscreteAction::KickYPos
    } else if i == 3 {
        DiscreteAction::KickYNeg
    } else if i == 4 {
        DiscreteAction::KickZPos
    } else if i == 5 {
        DiscreteAction::KickZNeg
    } else {
        DiscreteAction::Noop
    }
}

/// Table identifier of a discrete action.
pub fn action_id(a: DiscreteAction) -> (r: u8)
    ensures
        r == action_id_spec(a),
        r <= 6,
{
    match a {
        DiscreteAction::KickXPos => 0,
        DiscreteAction::KickXNeg => 1,
        DiscreteAction::KickYPos => 2,
        DiscreteAction::KickYNeg => 3,
        DiscreteAction::KickZPos => 4,
        DiscreteAction::KickZNeg => 5,
        DiscreteAction::Noop => 6,
    }
}

/// Discrete action standing behind a table identifier.
pub fn action_of_id(i: u8) -> (r: DiscreteAction)
    ensures
        r == action_of_id_spec(i as int),
{
    if i == 0 {
        DiscreteAction::KickXPos
    } else if i == 1 {
        DiscreteAction::KickXNeg
    } else if i == 2 {
        DiscreteAction::KickYPos
    } else if i == 3 {
        DiscreteAction::KickYNeg
    } else if i == 4 {
        DiscreteAction::KickZPos
    } else if i == 5 {
        DiscreteAction::KickZNeg
    } else {
        DiscreteAction::Noop
    }
}

/// Round trip: the identifier of an action names that action again.
pub proof fn lemma_action_id_round_trip(a: DiscreteAction)
    ensures
        action_of_id_spec(action_id_spec(a)) == a,
{
}

} // verus!
