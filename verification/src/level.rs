//! The level: the world, its template context, and the per-frame pipeline.
//!
//! A frame runs the systems in the fixed data-dependency order — decision
//! systems, motion integrator, collision resolver, upgrade resolver,
//! cleanup — and then applies the deferred structural changes in one
//! maintain step.  Rendering and audio are external: the post-frame
//! component state and the accumulated sound requests are left for them to
//! read.

use vstd::prelude::*;
use crate::components::{cfits, COMP_BOUND};
use crate::def::{bwf, dwf, sconfigure, EntityDescriptor, FactionId};
use crate::angle::Angle;
use crate::vec::Vec2;
use crate::spawn::{
    bundle_ids_ok, ids_wf, inf_wf, lemma_configure_ids, lemma_resolved_in_range, Infrastructure,
};
use crate::system::cleanup::Cleanup;
use crate::system::collider::Collider;
use crate::system::compute::Compute;
use crate::system::control::{Control, InputSample};
use crate::system::inertia::{Inertia, DELTA_MAX};
use crate::system::upgrader::Upgrader;
use crate::world::{entity_matches, same_slot, wf, wlen, Entity, World};

verus! {

/// The per-frame state every system reads.
#[derive(Clone, Copy, Debug, PartialEq, Eq, Structural)]
pub struct WorldState {
    /// Absolute simulation time, in milli-seconds.
    pub age: i64,
    /// Frame time, in milli-seconds, clamped to `[1, DELTA_MAX]`.
    pub delta: i64,
    /// Whether device input reaches the control system.
    pub take_input: bool,
    /// Whether the simulation is paused.
    pub paused: bool,
}

/// A level: the world and the templates it runs against.
pub struct Level {
    /// The entity registry and component stores.
    pub world: World,
    /// The read-only template context.
    pub inf: Infrastructure,
    /// Per-frame state.
    pub state: WorldState,
    /// The control system.
    pub control: Control,
    /// The ai system.
    pub compute: Compute,
    /// The motion integrator.
    pub inertia: Inertia,
    /// The collision resolver.
    pub collider: Collider,
    /// The upgrade resolver.
    pub upgrader: Upgrader,
    /// The cleanup system.
    pub cleanup: Cleanup,
}

/// Whole-level well-formedness: the world, the templates and every spawner
/// reference in both.
pub open spec fn lwf(l: Level) -> bool {
    &&& wf(l.world)
    &&& inf_wf(l.inf)
    &&& ids_wf(l.world, l.inf)
    &&& 0 <= l.state.age <= COMP_BOUND
}


/// The control pass as a relation between the worlds before and after it.
pub open spec fn control_rel(
    w0: World,
    w1: World,
    inf: Infrastructure,
    inputs: Seq<crate::system::control::InputSample>,
    take: bool,
    age: int,
) -> bool {
    &&& forall|i: int|
        #![trigger w1.inertial@[i]]
        0 <= i < wlen(w0) && crate::system::control::ctrl_actor(w0, i) ==> w1.inertial@[i] == Some(
            crate::system::control::scontrol_inertial(
                w0.inertial@[i]->Some_0,
                crate::system::control::sample_for(w0, inputs, take, i),
            ),
        ) && w1.shooter@[i] == Some(
            crate::system::control::scontrol_shooter(
                w0.shooter@[i]->Some_0,
                crate::system::control::sample_for(w0, inputs, take, i),
                age,
            ),
        )
    &&& forall|i: int|
        #![trigger w1.inertial@[i]]
        0 <= i < wlen(w0) && !crate::system::control::ctrl_actor(w0, i) ==> w1.inertial@[i]
            == w0.inertial@[i] && w1.shooter@[i] == w0.shooter@[i]
    &&& w1.pending_creates@ == w0.pending_creates@ + crate::system::control::scontrol_creates(
        w0,
        inf,
        inputs,
        take,
        age,
        wlen(w0),
    )
    &&& w1.sounds@ == w0.sounds@ + crate::system::control::scontrol_sounds(
        w0,
        inf,
        inputs,
        take,
        age,
        wlen(w0),
    )
    &&& w1.pending_deletes@ == w0.pending_deletes@
    &&& w1.generations@ == w0.generations@
    &&& w1.alive@ == w0.alive@
    &&& w1.spatial@ == w0.spatial@
    &&& w1.bounding@ == w0.bounding@
    &&& w1.hitpoints@ == w0.hitpoints@
    &&& w1.lifetime@ == w0.lifetime@
    &&& w1.explodes@ == w0.explodes@
    &&& w1.exploding@ == w0.exploding@
    &&& w1.powerup@ == w0.powerup@
    &&& w1.controlled@ == w0.controlled@
    &&& w1.computed@ == w0.computed@
    &&& w1.fading@ == w0.fading@
    &&& w1.visual@ == w0.visual@
}

/// The ai pass as a relation between the worlds before and after it.
pub open spec fn compute_rel(w0: World, w1: World, inf: Infrastructure, age: int) -> bool {
    &&& crate::system::compute::starget(w0) is None ==> w1 == w0
    &&& crate::system::compute::starget(w0) is Some ==> {
        let target = crate::system::compute::starget(w0)->Some_0;
        &&& forall|i: int|
            #![trigger w1.inertial@[i]]
            0 <= i < wlen(w0) && crate::system::compute::comp_actor(w0, i) ==> w1.inertial@[i]
                == Some(
                crate::components::Inertial {
                    v_fraction: crate::system::compute::sai_fraction(
                        w0.spatial@[i]->Some_0.position,
                        target,
                        w0.inertial@[i]->Some_0.v_fraction,
                    ),
                    ..w0.inertial@[i]->Some_0
                },
            ) && w1.shooter@[i] == Some(
                crate::system::compute::sai_shooter(w0.shooter@[i]->Some_0, age),
            )
        &&& forall|i: int|
            #![trigger w1.inertial@[i]]
            0 <= i < wlen(w0) && !crate::system::compute::comp_actor(w0, i) ==> w1.inertial@[i]
                == w0.inertial@[i] && w1.shooter@[i] == w0.shooter@[i]
        &&& w1.pending_creates@ == w0.pending_creates@ + crate::system::compute::sai_creates(
            w0,
            inf,
            target,
            age,
            wlen(w0),
        )
        &&& w1.sounds@ == w0.sounds@ + crate::system::compute::sai_sounds(w0, inf, age, wlen(w0))
        &&& w1.pending_deletes@ == w0.pending_deletes@
        &&& w1.generations@ == w0.generations@
        &&& w1.alive@ == w0.alive@
        &&& w1.spatial@ == w0.spatial@
        &&& w1.bounding@ == w0.bounding@
        &&& w1.hitpoints@ == w0.hitpoints@
        &&& w1.lifetime@ == w0.lifetime@
        &&& w1.explodes@ == w0.explodes@
        &&& w1.exploding@ == w0.exploding@
        &&& w1.powerup@ == w0.powerup@
        &&& w1.controlled@ == w0.controlled@
        &&& w1.computed@ == w0.computed@
        &&& w1.fading@ == w0.fading@
        &&& w1.visual@ == w0.visual@
    }
}

/// The motion pass as a relation between the worlds before and after it.
pub open spec fn inertia_rel(w0: World, w1: World, delta: int) -> bool {
    &&& wlen(w1) == wlen(w0)
    &&& forall|i: int|
        #![trigger w1.spatial@[i]]
        0 <= i < wlen(w0) ==> if w0.alive@[i] && w0.spatial@[i] is Some
            && w0.inertial@[i] is Some {
            {
                let r = crate::system::inertia::sintegrate(
                    w0.spatial@[i]->Some_0,
                    w0.inertial@[i]->Some_0,
                    delta,
                );
                w1.spatial@[i] == Some(r.0) && w1.inertial@[i] == Some(r.1)
            }
        } else {
            w1.spatial@[i] == w0.spatial@[i] && w1.inertial@[i] == w0.inertial@[i]
        }
    &&& w1.generations@ == w0.generations@
    &&& w1.alive@ == w0.alive@
    &&& w1.pending_deletes@ == w0.pending_deletes@
    &&& w1.pending_creates@ == w0.pending_creates@
    &&& w1.sounds@ == w0.sounds@
    &&& w1.bounding@ == w0.bounding@
    &&& w1.hitpoints@ == w0.hitpoints@
    &&& w1.lifetime@ == w0.lifetime@
    &&& w1.shooter@ == w0.shooter@
    &&& w1.explodes@ == w0.explodes@
    &&& w1.exploding@ == w0.exploding@
    &&& w1.powerup@ == w0.powerup@
    &&& w1.controlled@ == w0.controlled@
    &&& w1.computed@ == w0.computed@
    &&& w1.fading@ == w0.fading@
    &&& w1.visual@ == w0.visual@
}

/// The collision pass as a relation between the worlds before and after it:
/// some collected pair list explains the damage, spawns and sounds.
pub open spec fn collider_rel(w0: World, w1: World, inf: Infrastructure, age: int) -> bool {
    exists|ps: Seq<(usize, usize)>|
        {
            &&& crate::system::collider::pairs_sound(w0, ps)
            &&& crate::system::collider::pairs_complete(w0, ps)
            &&& crate::system::collider::pairs_lex(ps)
            &&& w1.hitpoints@ == crate::system::collider::sresolve_hp(
                w0.hitpoints@,
                ps,
                ps.len() as int,
            )
            &&& w1.pending_creates@ == w0.pending_creates@
                + crate::system::collider::sresolve_creates(w0, inf, ps, ps.len() as int, age)
            &&& w1.sounds@ == w0.sounds@ + crate::system::collider::sresolve_sounds(
                w0,
                inf,
                ps,
                ps.len() as int,
                age,
            )
            &&& w1.pending_deletes@ == w0.pending_deletes@
            &&& w1.generations@ == w0.generations@
            &&& w1.alive@ == w0.alive@
            &&& w1.spatial@ == w0.spatial@
            &&& w1.inertial@ == w0.inertial@
            &&& w1.bounding@ == w0.bounding@
            &&& w1.lifetime@ == w0.lifetime@
            &&& w1.shooter@ == w0.shooter@
            &&& w1.explodes@ == w0.explodes@
            &&& w1.exploding@ == w0.exploding@
            &&& w1.powerup@ == w0.powerup@
            &&& w1.controlled@ == w0.controlled@
            &&& w1.computed@ == w0.computed@
            &&& w1.fading@ == w0.fading@
            &&& w1.visual@ == w0.visual@
        }
}

/// The upgrade pass as a relation between the worlds before and after it:
/// some collected match list explains the rewired shooters, spawns, sounds
/// and queued deletions.
pub open spec fn upgrader_rel(w0: World, w1: World, inf: Infrastructure, age: int) -> bool {
    exists|ms: Seq<(usize, usize)>|
        {
            &&& crate::system::upgrader::matches_sound(w0, ms)
            &&& crate::system::upgrader::matches_complete(w0, ms)
            &&& crate::system::upgrader::matches_lex(ms)
            &&& w1.shooter@ == crate::system::upgrader::sup_shooter(w0, ms, ms.len() as int)
            &&& w1.pending_creates@ == w0.pending_creates@ + crate::system::upgrader::sup_creates(
                w0,
                inf,
                ms,
                ms.len() as int,
                age,
            )
            &&& w1.sounds@ == w0.sounds@ + crate::system::upgrader::sup_sounds(
                w0,
                inf,
                ms,
                ms.len() as int,
            )
            &&& w1.pending_deletes@ == w0.pending_deletes@ + crate::system::upgrader::sup_deletes(
                w0,
                ms,
                ms.len() as int,
            )
            &&& w1.generations@ == w0.generations@
            &&& w1.alive@ == w0.alive@
            &&& w1.spatial@ == w0.spatial@
            &&& w1.inertial@ == w0.inertial@
            &&& w1.bounding@ == w0.bounding@
            &&& w1.hitpoints@ == w0.hitpoints@
            &&& w1.lifetime@ == w0.lifetime@
            &&& w1.explodes@ == w0.explodes@
            &&& w1.exploding@ == w0.exploding@
            &&& w1.powerup@ == w0.powerup@
            &&& w1.controlled@ == w0.controlled@
            &&& w1.computed@ == w0.computed@
            &&& w1.fading@ == w0.fading@
            &&& w1.visual@ == w0.visual@
        }
}

/// The cleanup pass as a relation between the worlds before and after it.
pub open spec fn cleanup_rel(w0: World, w1: World, age: int) -> bool {
    &&& w1.pending_deletes@ == w0.pending_deletes@ + crate::system::cleanup::sexpired(
        w0,
        wlen(w0),
        age,
    ) + crate::system::cleanup::sdrained(w0, wlen(w0))
    &&& w1.pending_creates@ == w0.pending_creates@
    &&& w1.sounds@ == w0.sounds@
    &&& w1.generations@ == w0.generations@
    &&& w1.alive@ == w0.alive@
    &&& w1.spatial@ == w0.spatial@
    &&& w1.inertial@ == w0.inertial@
    &&& w1.bounding@ == w0.bounding@
    &&& w1.hitpoints@ == w0.hitpoints@
    &&& w1.lifetime@ == w0.lifetime@
    &&& w1.shooter@ == w0.shooter@
    &&& w1.explodes@ == w0.explodes@
    &&& w1.exploding@ == w0.exploding@
    &&& w1.powerup@ == w0.powerup@
    &&& w1.controlled@ == w0.controlled@
    &&& w1.computed@ == w0.computed@
    &&& w1.fading@ == w0.fading@
    &&& w1.visual@ == w0.visual@
}

/// The maintain step as a relation between the worlds before and after it.
pub open spec fn maintain_rel(w0: World, w1: World) -> bool {
    &&& w1.pending_deletes@.len() == 0
    &&& w1.pending_creates@.len() == 0
    &&& w1.sounds@ == w0.sounds@
    &&& wlen(w1) >= wlen(w0)
    &&& forall|i: int|
        #![trigger w1.alive@[i]]
        0 <= i < wlen(w0) && w0.alive@[i] && !crate::world::delete_queued(w0, i) ==> same_slot(
            w0,
            w1,
            i,
        )
    &&& forall|i: int|
        0 <= i < wlen(w0) && w0.alive@[i] && crate::world::delete_queued(w0, i)
            && w0.generations@[i] < u64::MAX ==> !(w1.alive@[i] && w1.generations@[i]
            == w0.generations@[i])
    &&& forall|i: int|
        #![trigger w1.alive@[i]]
        0 <= i < wlen(w1) && w1.alive@[i] && !(i < wlen(w0) && w0.alive@[i]
            && !crate::world::delete_queued(w0, i)) ==> exists|j: int|
            0 <= j < w0.pending_creates@.len() && entity_matches(w1, i, w0.pending_creates@[j])
}

/// One whole frame as a relation: the six passes in their fixed order,
/// through five intermediate worlds, followed by the maintain step.
pub open spec fn frame_rel(
    w0: World,
    w7: World,
    inf: Infrastructure,
    inputs: Seq<crate::system::control::InputSample>,
    take: bool,
    age: int,
    delta: int,
) -> bool {
    exists|w1: World, w2: World, w3: World, w4: World, w5: World, w6: World|
        {
            &&& #[trigger] control_rel(w0, w1, inf, inputs, take, age)
            &&& #[trigger] compute_rel(w1, w2, inf, age)
            &&& #[trigger] inertia_rel(w2, w3, delta)
            &&& #[trigger] collider_rel(w3, w4, inf, age)
            &&& #[trigger] upgrader_rel(w4, w5, inf, age)
            &&& #[trigger] cleanup_rel(w5, w6, age)
            &&& maintain_rel(w6, w7)
        }
}

impl Level {
    /// A new, empty level over the given template context.
    pub fn new(inf: Infrastructure) -> (r: Level)
        requires
            inf_wf(inf),
        ensures
            lwf(r),
            wlen(r.world) == 0,
            r.world.sounds@.len() == 0,
    {
        Level {
            world: World::new(),
            inf,
            state: WorldState { age: 0, delta: 1, take_input: true, paused: false },
            control: Control::new(),
            compute: Compute,
            inertia: Inertia,
            collider: Collider,
            upgrader: Upgrader,
            cleanup: Cleanup::new(),
        }
    }

    /// Creates an entity immediately from the named blueprint, with the
    /// given overrides; answers the handle, or nothing when no blueprint of
    /// that name exists.
    pub fn spawn(
        &mut self,
        name: &String,
        position: Option<Vec2>,
        angle: Option<Angle>,
        faction: Option<FactionId>,
    ) -> (r: Option<Entity>)
        requires
            lwf(*old(self)),
            position is Some ==> cfits((position->Some_0).0 as int) && cfits(
                (position->Some_0).1 as int,
            ),
            angle is Some ==> cfits((angle->Some_0).0 as int),
        ensures
            lwf(*final(self)),
            final(self).inf == old(self).inf,
            final(self).state == old(self).state,
            match r {
                Some(e) => {
                    &&& old(self).inf.repository.has_key(name@)
                    &&& e.index < wlen(final(self).world)
                    &&& final(self).world.alive@[e.index as int]
                    &&& entity_matches(
                        final(self).world,
                        e.index as int,
                        sconfigure(
                            old(self).inf.repository.at(old(self).inf.repository.resolved(name@)),
                            old(self).state.age as int,
                            position,
                            angle,
                            faction,
                        ),
                    )
                    &&& forall|i: int|
                        0 <= i < wlen(old(self).world) && i != e.index ==> same_slot(
                            old(self).world,
                            final(self).world,
                            i,
                        )
                },
                None => !old(self).inf.repository.has_key(name@) && final(self).world == old(
                    self,
                ).world,
            },
    {
        let looked = self.inf.repository.name(name);
        match looked {
            Some(descriptor) => {
                proof {
                    lemma_resolved_in_range(self.inf, name@);
                    assert(dwf(
                        self.inf.repository.at(self.inf.repository.resolved(name@)),
                    ));
                }
                let bundle = descriptor.configure(self.state.age, position, angle, faction);
                proof {
                    lemma_configure_ids(
                        self.inf,
                        self.inf.repository.at(self.inf.repository.resolved(name@)),
                        self.state.age as int,
                        position,
                        angle,
                        faction,
                    );
                }
                let ghost pre = self.world;
                let e = self.world.create_now(&bundle);
                proof {
                    lemma_ids_after_slot_change(pre, self.world, self.inf, e.index as int, bundle);
                }
                Some(e)
            },
            None => None,
        }
    }

    /// Drains the accumulated sound requests for the external audio sink.
    pub fn take_sounds(&mut self) -> (r: Vec<String>)
        requires
            lwf(*old(self)),
        ensures
            lwf(*final(self)),
            r@ == old(self).world.sounds@,
            final(self).world.sounds@.len() == 0,
            final(self).inf == old(self).inf,
            final(self).state == old(self).state,
    {
        let mut out: Vec<String> = Vec::new();
        std::mem::swap(&mut out, &mut self.world.sounds);
        proof {
            assert forall|i: int|
                0 <= i < wlen(self.world) implies crate::world::slot_wf(self.world, i) by {
                assert(crate::world::slot_wf(old(self).world, i));
            }
            assert forall|j: int|
                0 <= j < self.world.pending_creates@.len() implies bwf(
                self.world.pending_creates@[j],
            ) by {
                assert(bwf(old(self).world.pending_creates@[j]));
            }
            assert forall|j: int|
                0 <= j < self.world.pending_creates@.len() implies bundle_ids_ok(
                #[trigger] self.world.pending_creates@[j],
                self.inf,
            ) by {
                assert(bundle_ids_ok(old(self).world.pending_creates@[j], self.inf));
            }
            crate::spawn::lemma_ids_same_stores(old(self).world, self.world, self.inf);
        }
        out
    }

    /// Advances the simulation by one frame: the decision systems author
    /// intent, the motion integrator moves bodies, the collision resolver
    /// applies damage, the upgrade resolver rewires shooters, cleanup
    /// removes the dead and expired, and the deferred structural changes
    /// are applied in one maintain step.  A degenerate frame time is
    /// clamped to a minimum of one milli-second, so timers never stall.
    #[verifier::rlimit(100)]
    pub fn advance(
        &mut self,
        delta: i64,
        age: i64,
        take_input: bool,
        paused: bool,
        inputs: &Vec<InputSample>,
    )
        requires
            lwf(*old(self)),
            0 <= age <= COMP_BOUND,
        ensures
            lwf(*final(self)),
            final(self).inf == old(self).inf,
            final(self).state.age == age,
            final(self).state.take_input == take_input,
            final(self).state.paused == paused,
            1 <= final(self).state.delta <= DELTA_MAX,
            delta < 1 ==> final(self).state.delta == 1,
            1 <= delta <= DELTA_MAX ==> final(self).state.delta == delta,
            final(self).world.pending_deletes@.len() == 0,
            final(self).world.pending_creates@.len() == 0,
            frame_rel(
                old(self).world,
                final(self).world,
                old(self).inf,
                inputs@,
                take_input,
                age as int,
                final(self).state.delta as int,
            ),
    {
        let ghost w0 = self.world;
        let d: i64 = if delta < 1 {
            1
        } else if delta > DELTA_MAX {
            DELTA_MAX
        } else {
            delta
        };
        self.state = WorldState { age, delta: d, take_input, paused };
        self.control.run(&mut self.world, &self.inf, inputs, take_input, age);
        let ghost after_control = self.world;
        self.compute.run(&mut self.world, &self.inf, age);
        let ghost after_compute = self.world;
        self.inertia.run(&mut self.world, d);
        let ghost after_inertia = self.world;
        proof {
            assert forall|j: int|
                0 <= j < self.world.pending_creates@.len() implies bundle_ids_ok(
                #[trigger] self.world.pending_creates@[j],
                self.inf,
            ) by {
                assert(bundle_ids_ok(after_compute.pending_creates@[j], self.inf));
            }
            crate::spawn::lemma_ids_same_stores(after_compute, self.world, self.inf);
        }
        let collisions = self.collider.run(&mut self.world, &self.inf, age);
        let ghost after_collide = self.world;
        let upgrades = self.upgrader.run(&mut self.world, &self.inf, age);
        let ghost after_upgrade = self.world;
        self.cleanup.run(&mut self.world, age);
        proof {
            assert forall|j: int|
                0 <= j < self.world.pending_creates@.len() implies bundle_ids_ok(
                #[trigger] self.world.pending_creates@[j],
                self.inf,
            ) by {
                assert(bundle_ids_ok(after_upgrade.pending_creates@[j], self.inf));
            }
            crate::spawn::lemma_ids_same_stores(after_upgrade, self.world, self.inf);
        }
        let ghost before_maintain = self.world;
        self.world.maintain();
        proof {
            lemma_ids_after_maintain(before_maintain, self.world, self.inf);
            assert(control_rel(w0, after_control, self.inf, inputs@, take_input, age as int));
            assert(compute_rel(after_control, after_compute, self.inf, age as int));
            assert(inertia_rel(after_compute, after_inertia, d as int));
            assert(crate::system::collider::pairs_sound(after_inertia, collisions@));
            assert(collider_rel(after_inertia, after_collide, self.inf, age as int));
            assert(crate::system::upgrader::matches_sound(after_collide, upgrades@));
            assert(upgrader_rel(after_collide, after_upgrade, self.inf, age as int));
            assert(cleanup_rel(after_upgrade, before_maintain, age as int));
            assert(maintain_rel(before_maintain, self.world));
            assert(frame_rel(
                w0,
                self.world,
                self.inf,
                inputs@,
                take_input,
                age as int,
                d as int,
            ));
        }
    }
}

/// After a slot was created or replaced by a bundle whose ids are valid,
/// id well-formedness holds again.
proof fn lemma_ids_after_slot_change(
    w0: World,
    w1: World,
    inf: Infrastructure,
    e: int,
    d: EntityDescriptor,
)
    requires
        ids_wf(w0, inf),
        bundle_ids_ok(d, inf),
        wlen(w1) == wlen(w0) || wlen(w1) == wlen(w0) + 1,
        0 <= e < wlen(w1),
        entity_matches(w1, e, d),
        forall|i: int| 0 <= i < wlen(w0) && i != e ==> same_slot(w0, w1, i),
        w1.pending_creates@ == w0.pending_creates@,
        wlen(w1) == wlen(w0) + 1 ==> e == wlen(w0),
    ensures
        ids_wf(w1, inf),
{
    assert forall|i: int|
        0 <= i < wlen(w1) && w1.alive@[i] && #[trigger] w1.shooter@[i] is Some implies
        w1.shooter@[i]->Some_0.spawner.0 < inf.spawner.len() by {
        if i != e {
            assert(same_slot(w0, w1, i));
            assert(w0.alive@[i] && w0.shooter@[i] is Some ==> w0.shooter@[i]->Some_0.spawner.0
                < inf.spawner.len());
        }
    }
    assert forall|i: int|
        0 <= i < wlen(w1) && w1.alive@[i] && #[trigger] w1.explodes@[i] is Some implies
        w1.explodes@[i]->Some_0.spawner.0 < inf.spawner.len() by {
        if i != e {
            assert(same_slot(w0, w1, i));
            assert(w0.alive@[i] && w0.explodes@[i] is Some
                ==> w0.explodes@[i]->Some_0.spawner.0 < inf.spawner.len());
        }
    }
    assert forall|i: int|
        0 <= i < wlen(w1) && w1.alive@[i] && #[trigger] w1.exploding@[i] is Some implies
        w1.exploding@[i]->Some_0.spawner.0 < inf.spawner.len() by {
        if i != e {
            assert(same_slot(w0, w1, i));
            assert(w0.alive@[i] && w0.exploding@[i] is Some
                ==> w0.exploding@[i]->Some_0.spawner.0 < inf.spawner.len());
        }
    }
    assert forall|i: int|
        0 <= i < wlen(w1) && w1.alive@[i] && #[trigger] w1.powerup@[i] is Some implies
        w1.powerup@[i]->Some_0.spawner.0 < inf.spawner.len() by {
        if i != e {
            assert(same_slot(w0, w1, i));
            assert(w0.alive@[i] && w0.powerup@[i] is Some
                ==> w0.powerup@[i]->Some_0.spawner.0 < inf.spawner.len());
        }
    }
    assert forall|j: int|
        0 <= j < w1.pending_creates@.len() implies bundle_ids_ok(
        #[trigger] w1.pending_creates@[j],
        inf,
    ) by {
        assert(bundle_ids_ok(w0.pending_creates@[j], inf));
    }
}

/// Id well-formedness survives the maintain step: surviving slots keep
/// their components, and new slots are filled from queued bundles whose
/// ids were valid.
proof fn lemma_ids_after_maintain(w0: World, w1: World, inf: Infrastructure)
    requires
        ids_wf(w0, inf),
        wf(w0),
        wlen(w1) >= wlen(w0),
        w1.pending_creates@.len() == 0,
        forall|i: int|
            #![trigger w1.alive@[i]]
            0 <= i < wlen(w0) && w0.alive@[i] && !crate::world::delete_queued(w0, i) ==> same_slot(
                w0,
                w1,
                i,
            ),
        forall|i: int|
            #![trigger w1.alive@[i]]
            0 <= i < wlen(w1) && w1.alive@[i] && !(i < wlen(w0) && w0.alive@[i]
                && !crate::world::delete_queued(w0, i)) ==> exists|j: int|
                0 <= j < w0.pending_creates@.len() && entity_matches(w1, i, w0.pending_creates@[j]),
    ensures
        ids_wf(w1, inf),
{
    assert forall|i: int|
        0 <= i < wlen(w1) && w1.alive@[i] && #[trigger] w1.shooter@[i] is Some implies
        w1.shooter@[i]->Some_0.spawner.0 < inf.spawner.len() by {
        lemma_slot_ids(w0, w1, inf, i);
    }
    assert forall|i: int|
        0 <= i < wlen(w1) && w1.alive@[i] && #[trigger] w1.explodes@[i] is Some implies
        w1.explodes@[i]->Some_0.spawner.0 < inf.spawner.len() by {
        lemma_slot_ids(w0, w1, inf, i);
    }
    assert forall|i: int|
        0 <= i < wlen(w1) && w1.alive@[i] && #[trigger] w1.exploding@[i] is Some implies
        w1.exploding@[i]->Some_0.spawner.0 < inf.spawner.len() by {
        lemma_slot_ids(w0, w1, inf, i);
    }
    assert forall|i: int|
        0 <= i < wlen(w1) && w1.alive@[i] && #[trigger] w1.powerup@[i] is Some implies
        w1.powerup@[i]->Some_0.spawner.0 < inf.spawner.len() by {
        lemma_slot_ids(w0, w1, inf, i);
    }
}

/// Any slot of the maintained world has valid spawner references.
proof fn lemma_slot_ids(w0: World, w1: World, inf: Infrastructure, i: int)
    requires
        ids_wf(w0, inf),
        0 <= i < wlen(w1),
        forall|t: int|
            #![trigger w1.alive@[t]]
            0 <= t < wlen(w0) && w0.alive@[t] && !crate::world::delete_queued(w0, t) ==> same_slot(
                w0,
                w1,
                t,
            ),
        forall|t: int|
            #![trigger w1.alive@[t]]
            0 <= t < wlen(w1) && w1.alive@[t] && !(t < wlen(w0) && w0.alive@[t]
                && !crate::world::delete_queued(w0, t)) ==> exists|j: int|
                0 <= j < w0.pending_creates@.len() && entity_matches(w1, t, w0.pending_creates@[j]),
    ensures
        w1.alive@[i] && w1.shooter@[i] is Some ==> w1.shooter@[i]->Some_0.spawner.0
            < inf.spawner.len(),
        w1.alive@[i] && w1.explodes@[i] is Some ==> w1.explodes@[i]->Some_0.spawner.0
            < inf.spawner.len(),
        w1.alive@[i] && w1.exploding@[i] is Some ==> w1.exploding@[i]->Some_0.spawner.0
            < inf.spawner.len(),
        w1.alive@[i] && w1.powerup@[i] is Some ==> w1.powerup@[i]->Some_0.spawner.0
            < inf.spawner.len(),
{
    if w1.alive@[i] {
        if i < wlen(w0) && w0.alive@[i] && !crate::world::delete_queued(w0, i) {
            assert(same_slot(w0, w1, i));
            assert(w0.alive@[i] && w0.shooter@[i] is Some ==> w0.shooter@[i]->Some_0.spawner.0
                < inf.spawner.len());
            assert(w0.alive@[i] && w0.explodes@[i] is Some ==> w0.explodes@[i]->Some_0.spawner.0
                < inf.spawner.len());
            assert(w0.alive@[i] && w0.exploding@[i] is Some
                ==> w0.exploding@[i]->Some_0.spawner.0 < inf.spawner.len());
            assert(w0.alive@[i] && w0.powerup@[i] is Some ==> w0.powerup@[i]->Some_0.spawner.0
                < inf.spawner.len());
        } else {
            let j = choose|j: int|
                0 <= j < w0.pending_creates@.len() && entity_matches(w1, i, w0.pending_creates@[j]);
            assert(bundle_ids_ok(w0.pending_creates@[j], inf));
        }
    }
}

} // verus!
