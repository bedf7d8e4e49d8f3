//! The policy capability a session drives, and its trivial baselines.
//!
//! An experimenter is stateful across calls: each tick it receives the
//! latest observation, the world's scalar reward and the step count, and
//! answers with an action and, possibly, a discovery. Implementations are
//! interchangeable at construction time; the two baselines here always
//! answer with a no-op and never report, which makes them controls for
//! testing and the right choice for worlds where learning is unwanted.

use vstd::prelude::*;
use crate::events::{AgentAction, AgentObservation, DiscoveryEvent};

verus! {

/// A decision-making policy driven once per tick.
pub trait Experimenter {
    /// The well-formedness every implementation maintains across calls.
    spec fn inv(&self) -> bool;

    /// Observe, learn, and choose: one full cycle of the policy.
    fn act(&mut self, obs: &AgentObservation, reward: i64, step: u64) -> (r: (
        AgentAction,
        Option<DiscoveryEvent>,
    ))
        requires
            old(self).inv(),
        ensures
            final(self).inv(),
    ;
}

/// Baseline policy: tend the world, touch nothing, report nothing.
pub struct GardenerAgent;

impl GardenerAgent {
    /// A fresh baseline agent.
    pub fn new() -> (r: GardenerAgent)
        ensures
            r.inv(),
    {
        GardenerAgent
    }
}

impl Experimenter for GardenerAgent {
    open spec fn inv(&self) -> bool {
        true
    }

    fn act(&mut self, obs: &AgentObservation, reward: i64, step: u64) -> (r: (
        AgentAction,
        Option<DiscoveryEvent>,
    ))
        ensures
            *final(self) == *old(self),
            r.0 is Noop,
            r.1 is None,
    {
        (AgentAction::Noop, None)
    }
}

/// Baseline policy for tests: indistinguishable from the gardener.
pub struct MockExperimenter;

impl MockExperimenter {
    /// A fresh mock agent.
    pub fn new() -> (r: MockExperimenter)
        ensures
            r.inv(),
    {
        MockExperimenter
    }
}

impl Experimenter for MockExperimenter {
    open spec fn inv(&self) -> bool {
        true
    }

    fn act(&mut self, obs: &AgentObservation, reward: i64, step: u64) -> (r: (
        AgentAction,
        Option<DiscoveryEvent>,
    ))
        ensures
            *final(self) == *old(self),
            r.0 is Noop,
            r.1 is None,
    {
        (AgentAction::Noop, None)
    }
}

} // verus!
