//! Whether the simulation is running.

use vstd::prelude::*;

verus! {

#[derive(Clone, Copy, Debug, PartialEq, Eq, Hash, Structural)]
pub enum SpaceSimulationState {
    Running,
    Stopped,
}

impl SpaceSimulationState {
    /// The other state.
    pub open spec fn flipped(self) -> SpaceSimulationState {
        match self {
            SpaceSimulationState::Running => SpaceSimulationState::Stopped,
            SpaceSimulationState::Stopped => SpaceSimulationState::Running,
        }
    }
}

/// The state after `toggles` toggle requests: each one flips it.
pub fn toggle_simulation_state(state: SpaceSimulationState, toggles: usize) -> (next:
    SpaceSimulationState)
    ensures
        next == if toggles % 2 == 0 {
            state
        } else {
            state.flipped()
        },
{
    if toggles % 2 == 0 {
        state
    } else {
        match state {
            SpaceSimulationState::Running => SpaceSimulationState::Stopped,
            SpaceSimulationState::Stopped => SpaceSimulationState::Running,
        }
    }
}

} // verus!
