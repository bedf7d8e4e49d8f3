//! The session: one world, one agent, one tick at a time.
//!
//! Each tick runs observe → reward → act → apply → step, then counts the
//! tick and hands any discovery back to the caller. A world without the
//! experimentation capability is driven by stepping alone — that is a
//! mode, not an error. The session owns both halves for its lifetime and
//! has no other observable effect.

use vstd::prelude::*;
use crate::bridge::{map_act, map_obs};
use crate::events::{DiscoveryEvent, SimState};
use crate::experimenter::Experimenter;
use crate::world::{Experimentable, Simulation};

verus! {

/// One (world, agent) pair and the count of ticks driven so far.
pub struct Session<W: Simulation + Experimentable, A: Experimenter> {
    /// The world being driven.
    pub sim: W,
    /// The policy consulted each tick.
    pub agent: A,
    /// Ticks driven since construction.
    pub step_count: u64,
}

impl<W: Simulation + Experimentable, A: Experimenter> Session<W, A> {
    /// The session is usable: its agent upholds its own invariant.
    pub open spec fn wf(&self) -> bool {
        self.agent.inv()
    }

    /// Bind a world to an agent, with the tick counter at zero.
    pub fn new(sim: W, agent: A) -> (r: Session<W, A>)
        requires
            agent.inv(),
        ensures
            r.wf(),
            r.step_count == 0,
            r.sim == sim,
            r.agent == agent,
    {
        Session { sim, agent, step_count: 0 }
    }

    /// Drive one tick: consult the agent if the world supports
    /// experimentation, advance the world unconditionally, count the tick,
    /// and report any discovery.
    pub fn tick(&mut self) -> (d: Option<DiscoveryEvent>)
        requires
            old(self).wf(),
            old(self).step_count < u64::MAX,
        ensures
            final(self).wf(),
            final(self).step_count == old(self).step_count + 1,
    {
        let mut discovery: Option<DiscoveryEvent> = None;
        if self.sim.is_experimentable() {
            let obs = self.sim.observe();
            let agent_obs = map_obs(obs);
            let rew = self.sim.reward();
            let (agent_action, event) = self.agent.act(&agent_obs, rew, self.step_count);
            discovery = event;
            let sim_action = map_act(agent_action);
            self.sim.apply_action(sim_action);
        }
        self.sim.step();
        self.step_count = self.step_count + 1;
        discovery
    }

    /// The world's current state, straight from the world.
    pub fn get_state(&self) -> SimState {
        self.sim.get_state()
    }
}

} // verus!
