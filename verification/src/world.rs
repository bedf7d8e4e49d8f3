//! The world boundary: the narrow interface any dynamical system must
//! offer to be driven by a session.
//!
//! Worlds are external collaborators — their numerics are their own
//! business and nothing here constrains them. A world that also supports
//! experimentation answers the capability query positively and gives the
//! three experimentation methods real bodies; a plain world leaves the
//! defaults, and the session then drives it by stepping alone.

use vstd::prelude::*;
use crate::events::{Action, Observation, ParamValue, SimState};

verus! {

/// A dynamical system the session can drive one generation at a time.
pub trait Simulation {
    /// Advance the world by one logical generation.
    fn step(&mut self);

    /// The current renderable state; read-only, never cached.
    fn get_state(&self) -> SimState;

    /// Set a runtime parameter, best effort: unknown keys are ignored.
    fn set_param(&mut self, key: &str, value: ParamValue);

    /// Whether the experimentation extension is really supported.
    fn is_experimentable(&self) -> bool {
        false
    }
}

/// The optional experimentation extension of a world.
pub trait Experimentable {
    /// A compact observation for the agent.
    fn observe(&self) -> (r: Observation) {
        Observation::Empty
    }

    /// Apply an agent-chosen action to the world.
    fn apply_action(&mut self, action: Action) {
    }

    /// Scalar reward for the last step, in fixed-point ticks.
    fn reward(&self) -> (r: i64) {
        0
    }
}

} // verus!
