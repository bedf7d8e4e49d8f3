//! Core of a small experimentation loop: a session binds one dynamical
//! "world" to one decision-making agent, drives the pair one tick at a
//! time, and hands any discovery the agent reports back to the caller.
//!
//! The centrepiece is a curiosity-driven tabular Q-learning agent that
//! discretizes continuous state through a foveated (logarithmic) transform,
//! maintains a learned value table and a learned one-step world model,
//! shapes its reward with a prediction-error ("surprise") bonus, and
//! periodically emits qualitative discovery reports.
//!
//! Continuous quantities are carried as fixed-point `i64` ticks throughout:
//! one whole unit of the continuous scale equals `fixed::SCALE` ticks.
//! Callers that live in floating point convert at the boundary.

pub mod agent;
pub mod bridge;
pub mod discretize;
pub mod events;
pub mod experimenter;
pub mod fixed;
pub mod laws;
pub mod rng;
pub mod session;
pub mod table;
pub mod text;
pub mod world;

pub use agent::{Brain, BrainType, QLearningAgent, create_brain};
pub use bridge::{map_act, map_obs};
pub use events::{
    Action, AgentAction, AgentObservation, DiscoveryEvent, DiscreteAction, Observation,
    ParamValue, SimState,
};
pub use experimenter::{Experimenter, GardenerAgent, MockExperimenter};
pub use fixed::Vec3;
pub use session::Session;
pub use world::{Experimentable, Simulation};
