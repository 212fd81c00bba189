//! The component records an entity can carry.  Components are plain data;
//! behavior lives in the systems.

use vstd::prelude::*;
use crate::fx::{fits, smin};
use crate::vec::Vec2;
use crate::angle::Angle;
use crate::def::{FactionId, SpawnerId};

verus! {

/// Bound on every quantity a component stores; half the working range, so
/// that age-relative adjustments stay in range.
pub const COMP_BOUND: i64 = 1_000_000_000;

/// Whether a stored component value is within its allowed range.
pub open spec fn cfits(x: int) -> bool {
    -COMP_BOUND <= x <= COMP_BOUND
}

/// A repeating interval: `elapsed` answers true once each time the interval
/// has passed.
#[derive(Clone, Copy, Debug, PartialEq, Eq, Structural)]
pub struct Periodic {
    /// Length of the interval, in milli-seconds.
    pub interval: i64,
    /// Time at which the interval next elapses.
    pub next: i64,
}

impl Periodic {
    /// A new interval, first elapsing one interval after `current`.
    pub fn new(current: i64, interval: i64) -> (r: Periodic)
        requires
            fits(current + interval),
        ensures
            r.interval == interval,
            r.next == current + interval,
    {
        Periodic { interval, next: current + interval }
    }

    /// Answers whether the interval has elapsed and, if so, advances to one
    /// interval after `current`, keeping at most one interval of backlog.
    pub fn elapsed(&mut self, current: i64) -> (r: bool)
        requires
            cfits(old(self).interval as int),
            fits(old(self).next as int),
            cfits(current as int),
            0 <= old(self).interval,
        ensures
            r == (old(self).next <= current),
            !r ==> *final(self) == *old(self),
            r ==> final(self).next == current + old(self).interval - smin(
                current - old(self).next,
                old(self).interval as int,
            ),
            final(self).interval == old(self).interval,
            fits(final(self).next as int),
    {
        if self.next <= current {
            let behind = crate::fx::min_i(current - self.next, self.interval);
            self.next = current + self.interval - behind;
            true
        } else {
            false
        }
    }
}

/// How desired motion maps to velocity and facing.
#[derive(Clone, Copy, Debug, PartialEq, Eq, Structural)]
pub enum InertialMotionType {
    /// Velocity is held; no integration.
    Const,
    /// Velocity turns toward the desired vector under the angular-rate
    /// ceiling; facing follows the velocity.
    FollowVector,
    /// Velocity approaches the desired vector directly; facing is left to
    /// the decision system.
    StrafeVector,
    /// Velocity decays to zero; facing turns toward the desired vector.
    Detached,
}

/// Position and orientation in space.
#[derive(Clone, Copy, Debug, PartialEq, Eq, Structural)]
pub struct Spatial {
    /// Current position, in milli-units.
    pub position: Vec2,
    /// Current facing angle.
    pub angle: Angle,
    /// Derived banking value in `[-1000, 1000]`, read only by rendering.
    pub lean: i64,
}

/// Motion state: the entity accelerates and rotates toward the desired
/// vector according to its transition rates.
#[derive(Clone, Copy, Debug, PartialEq, Eq, Structural)]
pub struct Inertial {
    /// Maximum velocity; components are non-negative.
    pub v_max: Vec2,
    /// Desired fraction of the maximum velocity; each component in
    /// `[-1000, 1000]`.
    pub v_fraction: Vec2,
    /// Computed current velocity.
    pub v_current: Vec2,
    /// Transition rate while trying to move, in milli per second.
    pub trans_motion: i64,
    /// Transition rate while trying to stop, in milli per second.
    pub trans_rest: i64,
    /// Maximum angular velocity at zero speed, in milli-radians per second.
    pub av_max_v0: i64,
    /// Maximum angular velocity at maximum speed, in milli-radians per
    /// second.
    pub av_max_vmax: i64,
    /// Rate of change for the lean value.
    pub trans_lean: i64,
    /// How the desired vector maps to velocity and facing.
    pub motion_type: InertialMotionType,
}

/// Collision body: entities with a bounding radius collide with each other
/// unless they share a faction.
#[derive(Clone, Copy, Debug, PartialEq, Eq, Structural)]
pub struct Bounding {
    /// Collision radius, in milli-units.
    pub radius: i64,
    /// Faction the entity belongs to.
    pub faction: FactionId,
}

/// Remaining health; the entity becomes destruction-eligible at zero or
/// below.
#[derive(Clone, Copy, Debug, PartialEq, Eq, Structural)]
pub struct Hitpoints(pub i64);

/// Absolute simulation time at which the entity expires.
#[derive(Clone, Copy, Debug, PartialEq, Eq, Structural)]
pub struct Lifetime(pub i64);

/// Fires the referenced spawner at most once per elapsed interval.
#[derive(Clone, Copy, Debug, PartialEq, Eq, Structural)]
pub struct Shooter {
    /// Cooldown between shots.
    pub interval: Periodic,
    /// Spawner fired for each shot.
    pub spawner: SpawnerId,
}

/// On destruction of the owning entity, the referenced spawner fires.
#[derive(Clone, Copy, Debug, PartialEq, Eq, Structural)]
pub struct Explodes {
    /// Spawner fired on destruction.
    pub spawner: SpawnerId,
}

/// Marker carried by short-lived explosion entities.
#[derive(Clone, Copy, Debug, PartialEq, Eq, Structural)]
pub struct Exploding {
    /// Spawner fired while exploding.
    pub spawner: SpawnerId,
}

/// Faction-matched proximity trigger: on contact with a matching shooter,
/// the shooter's active spawner is replaced.
#[derive(Clone, Copy, Debug, PartialEq, Eq, Structural)]
pub struct Powerup {
    /// Trigger radius, in milli-units.
    pub radius: i64,
    /// Faction whose members may collect this pickup.
    pub faction: FactionId,
    /// Spawner installed into the collector's shooter.
    pub spawner: SpawnerId,
}

/// The entity's intent is produced from device input.
#[derive(Clone, Copy, Debug, PartialEq, Eq, Structural)]
pub struct Controlled {
    /// Input mapping id.
    pub input_id: u32,
}

/// The entity's intent is produced by the heuristic ai.
#[derive(Clone, Copy, Debug, PartialEq, Eq, Structural)]
pub struct Computed {
}

/// The entity fades out between the two times, read by rendering.
#[derive(Clone, Copy, Debug, PartialEq, Eq, Structural)]
pub struct Fading {
    /// Absolute time at which the fade starts.
    pub start: i64,
    /// Absolute time at which the fade ends.
    pub end: i64,
}

/// Presentation state left for an external renderer to read.
#[derive(Clone, Copy, Debug, PartialEq, Eq, Structural)]
pub struct Visual {
    /// Layer the sprite is drawn to, if any.
    pub layer: Option<u32>,
    /// Layer the glow effect is drawn to, if any.
    pub effect_layer: Option<u32>,
    /// Sprite to draw.
    pub sprite: u32,
    /// Sprite scale, in milli.
    pub scale: i64,
    /// Effect scale, in milli.
    pub effect_scale: i64,
    /// Current animation frame, in milli.
    pub frame_id: i64,
    /// Animation rate; zero selects the frame from the lean value.
    pub fps: u32,
}

} // verus!
