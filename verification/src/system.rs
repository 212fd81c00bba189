//! The per-frame systems, run in a fixed order consistent with their data
//! dependencies: the decision systems author motion intent, the motion
//! integrator moves bodies, the collision resolver applies damage, the
//! upgrade resolver rewires shooters, and cleanup removes expired entities.

pub mod cleanup;
pub mod collider;
pub mod compute;
pub mod control;
pub mod inertia;
pub mod upgrader;
