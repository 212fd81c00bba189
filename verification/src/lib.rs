//! Simulation core of a 2D arcade shooter.
//!
//! The crate advances a world of entities frame by frame: decision systems
//! author motion intent, the motion integrator moves bodies, the collision
//! resolver applies mutual damage between opposing factions, pickups upgrade
//! shooters, and cleanup removes expired entities.  Structural changes are
//! deferred to a single maintain step at the end of each frame, so every
//! system observes a stable snapshot.
//!
//! All quantities are fixed-point integers: a value of 1000 stands for one
//! unit (one world unit, one second, or one radian).

pub mod angle;
pub mod completion;
pub mod components;
pub mod def;
pub mod fx;
pub mod laws;
pub mod level;
pub mod repository;
pub mod spawn;
pub mod system;
pub mod timer;
pub mod vec;
pub mod world;
