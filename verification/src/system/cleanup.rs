//! Cleanup: queues for deletion every entity whose lifetime has expired or
//! whose health has run out.
//!
//! The deletions take effect only at the end-of-frame maintain, so entities
//! dying this frame stay visible to every system that still runs this
//! frame.

use vstd::prelude::*;
use crate::components::cfits;
use crate::world::{wf, wlen, Entity, World};

verus! {

/// Whether the entity in slot `i` has outlived its lifetime at time `age`.
pub open spec fn expired(w: World, i: int, age: int) -> bool {
    &&& w.alive@[i]
    &&& w.lifetime@[i] is Some
    &&& (w.lifetime@[i]->Some_0).0 <= age
}

/// Whether the entity in slot `i` has no health left.
pub open spec fn drained(w: World, i: int) -> bool {
    &&& w.alive@[i]
    &&& w.hitpoints@[i] is Some
    &&& (w.hitpoints@[i]->Some_0).0 <= 0
}

/// Handles of the expired entities among the first `n` slots, in order.
pub open spec fn sexpired(w: World, n: int, age: int) -> Seq<Entity>
    decreases n,
{
    if n <= 0 {
        Seq::empty()
    } else {
        let prev = sexpired(w, n - 1, age);
        if expired(w, n - 1, age) {
            prev.push(
                Entity { index: (n - 1) as usize, generation: w.generations@[n - 1] },
            )
        } else {
            prev
        }
    }
}

/// Handles of the drained entities among the first `n` slots, in order.
pub open spec fn sdrained(w: World, n: int) -> Seq<Entity>
    decreases n,
{
    if n <= 0 {
        Seq::empty()
    } else {
        let prev = sdrained(w, n - 1);
        if drained(w, n - 1) {
            prev.push(
                Entity { index: (n - 1) as usize, generation: w.generations@[n - 1] },
            )
        } else {
            prev
        }
    }
}

/// The cleanup system.
pub struct Cleanup {
}

impl Cleanup {
    /// A new cleanup system.
    pub fn new() -> (r: Cleanup) {
        Cleanup {  }
    }

    /// Queues every expired-lifetime entity, then every drained-health
    /// entity, for deletion at the next maintain.  No store changes; only
    /// the deletion queue grows.
    pub fn run(&mut self, world: &mut World, age: i64)
        requires
            wf(*old(world)),
            cfits(age as int),
        ensures
            wf(*final(world)),
            final(world).pending_deletes@ == old(world).pending_deletes@ + sexpired(
                *old(world),
                wlen(*old(world)),
                age as int,
            ) + sdrained(*old(world), wlen(*old(world))),
            final(world).pending_creates@ == old(world).pending_creates@,
            final(world).sounds@ == old(world).sounds@,
            final(world).generations@ == old(world).generations@,
            final(world).alive@ == old(world).alive@,
            final(world).spatial@ == old(world).spatial@,
            final(world).inertial@ == old(world).inertial@,
            final(world).bounding@ == old(world).bounding@,
            final(world).hitpoints@ == old(world).hitpoints@,
            final(world).lifetime@ == old(world).lifetime@,
            final(world).shooter@ == old(world).shooter@,
            final(world).explodes@ == old(world).explodes@,
            final(world).exploding@ == old(world).exploding@,
            final(world).powerup@ == old(world).powerup@,
            final(world).controlled@ == old(world).controlled@,
            final(world).computed@ == old(world).computed@,
            final(world).fading@ == old(world).fading@,
            final(world).visual@ == old(world).visual@,
    {
        let ghost w0 = *world;
        let n = world.alive.len();
        let mut i: usize = 0;
        while i < n
            invariant
                wf(*world),
                n == wlen(w0),
                i <= n,
                world.generations@ == w0.generations@,
                world.alive@ == w0.alive@,
                world.spatial@ == w0.spatial@,
                world.inertial@ == w0.inertial@,
                world.bounding@ == w0.bounding@,
                world.hitpoints@ == w0.hitpoints@,
                world.lifetime@ == w0.lifetime@,
                world.shooter@ == w0.shooter@,
                world.explodes@ == w0.explodes@,
                world.exploding@ == w0.exploding@,
                world.powerup@ == w0.powerup@,
                world.controlled@ == w0.controlled@,
                world.computed@ == w0.computed@,
                world.fading@ == w0.fading@,
                world.visual@ == w0.visual@,
                world.pending_creates@ == w0.pending_creates@,
                world.sounds@ == w0.sounds@,
                world.pending_deletes@ == w0.pending_deletes@ + sexpired(w0, i as int, age as int),
            decreases n - i,
        {
            if world.alive[i] {
                if let Some(lifetime) = world.lifetime[i] {
                    if lifetime.0 <= age {
                        let e = Entity { index: i, generation: world.generations[i] };
                        world.delete(e);
                    }
                }
            }
            i = i + 1;
            proof {
                assert(world.pending_deletes@ =~= w0.pending_deletes@ + sexpired(
                    w0,
                    i as int,
                    age as int,
                ));
            }
        }
        let ghost w1 = *world;
        let mut i: usize = 0;
        while i < n
            invariant
                wf(*world),
                n == wlen(w0),
                i <= n,
                world.generations@ == w1.generations@,
                world.alive@ == w1.alive@,
                world.spatial@ == w1.spatial@,
                world.inertial@ == w1.inertial@,
                world.bounding@ == w1.bounding@,
                world.hitpoints@ == w1.hitpoints@,
                world.lifetime@ == w1.lifetime@,
                world.shooter@ == w1.shooter@,
                world.explodes@ == w1.explodes@,
                world.exploding@ == w1.exploding@,
                world.powerup@ == w1.powerup@,
                world.controlled@ == w1.controlled@,
                world.computed@ == w1.computed@,
                world.fading@ == w1.fading@,
                world.visual@ == w1.visual@,
                world.pending_creates@ == w1.pending_creates@,
                world.sounds@ == w1.sounds@,
                world.pending_deletes@ == w1.pending_deletes@ + sdrained(w0, i as int),
                w1.generations@ == w0.generations@,
                w1.alive@ == w0.alive@,
                w1.spatial@ == w0.spatial@,
                w1.inertial@ == w0.inertial@,
                w1.bounding@ == w0.bounding@,
                w1.hitpoints@ == w0.hitpoints@,
                w1.lifetime@ == w0.lifetime@,
                w1.shooter@ == w0.shooter@,
                w1.explodes@ == w0.explodes@,
                w1.exploding@ == w0.exploding@,
                w1.powerup@ == w0.powerup@,
                w1.controlled@ == w0.controlled@,
                w1.computed@ == w0.computed@,
                w1.fading@ == w0.fading@,
                w1.visual@ == w0.visual@,
                w1.pending_creates@ == w0.pending_creates@,
                w1.sounds@ == w0.sounds@,
            decreases n - i,
        {
            if world.alive[i] {
                if let Some(hitpoints) = world.hitpoints[i] {
                    if hitpoints.0 <= 0 {
                        let e = Entity { index: i, generation: world.generations[i] };
                        world.delete(e);
                    }
                }
            }
            i = i + 1;
            proof {
                assert(world.pending_deletes@ =~= w1.pending_deletes@ + sdrained(w0, i as int));
            }
        }
        proof {
            assert(world.pending_deletes@ =~= w0.pending_deletes@ + sexpired(
                w0,
                wlen(w0),
                age as int,
            ) + sdrained(w0, wlen(w0)));
        }
    }
}

} // verus!
