//! Verified core of an adaptive-precision N-body gravitational integrator:
//! the body registry, the pair bookkeeping, the closing-speed cache and the
//! decisions of the adaptive step. Numeric work on positions and velocities is
//! left to the caller; the library never inspects the numeric types it stores.

pub mod bodies;
pub mod ext;
pub mod names;
pub mod pairs;
pub mod precision;
pub mod scheduler;
pub mod simulation;
pub mod state;
