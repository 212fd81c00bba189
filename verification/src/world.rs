//! The entity registry and component stores, with the deferred command
//! queue.
//!
//! Structural changes — entity creation and deletion — are never applied in
//! place: systems queue them, and a single `maintain` step at the end of the
//! frame applies the queue.  Every system therefore observes a stable
//! snapshot for the whole frame.  Handles carry a generation tag, so a
//! handle to an entity already removed is detected and ignored.

use vstd::prelude::*;
use crate::components::{
    Bounding, Computed, Controlled, Explodes, Exploding, Fading, Hitpoints, Inertial, Lifetime,
    Powerup, Shooter, Spatial, Visual,
};
use crate::def::{bwf, iwf, swf, EntityDescriptor};
use crate::fx::fits;

verus! {

/// An opaque entity handle: a slot index with a generation tag that detects
/// stale references after the slot is reused.
#[derive(Clone, Copy, Debug, PartialEq, Eq, Structural)]
pub struct Entity {
    /// Slot index across all component stores.
    pub index: usize,
    /// Generation of the slot when the handle was issued.
    pub generation: u64,
}

/// The world: per-component dense stores keyed by slot index, the liveness
/// and generation registry, and the deferred command queue.
pub struct World {
    /// Generation of each slot, bumped when the slot's entity is removed.
    pub generations: Vec<u64>,
    /// Whether each slot currently holds a live entity.
    pub alive: Vec<bool>,
    /// Position and orientation store.
    pub spatial: Vec<Option<Spatial>>,
    /// Motion state store.
    pub inertial: Vec<Option<Inertial>>,
    /// Collision body store.
    pub bounding: Vec<Option<Bounding>>,
    /// Health store.
    pub hitpoints: Vec<Option<Hitpoints>>,
    /// Expiry time store.
    pub lifetime: Vec<Option<Lifetime>>,
    /// Shooter store.
    pub shooter: Vec<Option<Shooter>>,
    /// Destruction trigger store.
    pub explodes: Vec<Option<Explodes>>,
    /// Explosion marker store.
    pub exploding: Vec<Option<Exploding>>,
    /// Pickup trigger store.
    pub powerup: Vec<Option<Powerup>>,
    /// Device input marker store.
    pub controlled: Vec<Option<Controlled>>,
    /// Heuristic ai marker store.
    pub computed: Vec<Option<Computed>>,
    /// Fade window store.
    pub fading: Vec<Option<Fading>>,
    /// Presentation store.
    pub visual: Vec<Option<Visual>>,
    /// Deletions queued for the next `maintain`.
    pub pending_deletes: Vec<Entity>,
    /// Creations queued for the next `maintain`, as materialized bundles.
    pub pending_creates: Vec<EntityDescriptor>,
    /// Sound cues requested this frame, for an external audio sink.
    pub sounds: Vec<String>,
}

/// Number of slots.
pub open spec fn wlen(w: World) -> int {
    w.generations@.len() as int
}

/// All stores cover the same slots.
pub open spec fn stores_len_ok(w: World) -> bool {
    &&& w.alive@.len() == wlen(w)
    &&& w.spatial@.len() == wlen(w)
    &&& w.inertial@.len() == wlen(w)
    &&& w.bounding@.len() == wlen(w)
    &&& w.hitpoints@.len() == wlen(w)
    &&& w.lifetime@.len() == wlen(w)
    &&& w.shooter@.len() == wlen(w)
    &&& w.explodes@.len() == wlen(w)
    &&& w.exploding@.len() == wlen(w)
    &&& w.powerup@.len() == wlen(w)
    &&& w.controlled@.len() == wlen(w)
    &&& w.computed@.len() == wlen(w)
    &&& w.fading@.len() == wlen(w)
    &&& w.visual@.len() == wlen(w)
}

/// The values stored in slot `i` are within their stated ranges.
pub open spec fn slot_wf(w: World, i: int) -> bool {
    &&& (w.spatial@[i] is Some ==> swf(w.spatial@[i]->Some_0))
    &&& (w.inertial@[i] is Some ==> iwf(w.inertial@[i]->Some_0))
    &&& (w.bounding@[i] is Some ==> 0 <= w.bounding@[i]->Some_0.radius
        <= crate::components::COMP_BOUND)
    &&& (w.hitpoints@[i] is Some ==> 0 <= (w.hitpoints@[i]->Some_0).0
        <= crate::components::COMP_BOUND)
    &&& (w.lifetime@[i] is Some ==> fits((w.lifetime@[i]->Some_0).0 as int))
    &&& (w.shooter@[i] is Some ==> 0 <= w.shooter@[i]->Some_0.interval.interval
        <= crate::components::COMP_BOUND && fits(w.shooter@[i]->Some_0.interval.next as int))
    &&& (w.powerup@[i] is Some ==> 0 <= w.powerup@[i]->Some_0.radius
        <= crate::components::COMP_BOUND)
}

/// Whole-world well-formedness: equal store lengths, every slot within
/// range, and every queued creation bundle within range.
pub open spec fn wf(w: World) -> bool {
    &&& stores_len_ok(w)
    &&& forall|i: int| 0 <= i < wlen(w) ==> slot_wf(w, i)
    &&& forall|j: int| 0 <= j < w.pending_creates@.len() ==> bwf(w.pending_creates@[j])
}

/// Slot `i` holds exactly the components of the bundle `d`, with no
/// explosion marker.
pub open spec fn entity_matches(w: World, i: int, d: EntityDescriptor) -> bool {
    &&& w.spatial@[i] == d.spatial
    &&& w.inertial@[i] == d.inertial
    &&& w.bounding@[i] == d.bounding
    &&& w.hitpoints@[i] == d.hitpoints
    &&& w.lifetime@[i] == d.lifetime
    &&& w.shooter@[i] == d.shooter
    &&& w.explodes@[i] == d.explodes
    &&& w.exploding@[i] is None
    &&& w.powerup@[i] == d.powerup
    &&& w.controlled@[i] == d.controlled
    &&& w.computed@[i] == d.computed
    &&& w.fading@[i] == d.fading
    &&& w.visual@[i] == d.visual
}

/// Slot `i` is identical in the two worlds: liveness, generation and all
/// components.
pub open spec fn same_slot(w1: World, w2: World, i: int) -> bool {
    &&& w1.alive@[i] == w2.alive@[i]
    &&& w1.generations@[i] == w2.generations@[i]
    &&& w1.spatial@[i] == w2.spatial@[i]
    &&& w1.inertial@[i] == w2.inertial@[i]
    &&& w1.bounding@[i] == w2.bounding@[i]
    &&& w1.hitpoints@[i] == w2.hitpoints@[i]
    &&& w1.lifetime@[i] == w2.lifetime@[i]
    &&& w1.shooter@[i] == w2.shooter@[i]
    &&& w1.explodes@[i] == w2.explodes@[i]
    &&& w1.exploding@[i] == w2.exploding@[i]
    &&& w1.powerup@[i] == w2.powerup@[i]
    &&& w1.controlled@[i] == w2.controlled@[i]
    &&& w1.computed@[i] == w2.computed@[i]
    &&& w1.fading@[i] == w2.fading@[i]
    &&& w1.visual@[i] == w2.visual@[i]
}

/// A queued deletion targets the live entity in slot `i`: its index and
/// generation both match.
pub open spec fn delete_queued(w: World, i: int) -> bool {
    exists|k: int|
        0 <= k < w.pending_deletes@.len() && w.pending_deletes@[k].index == i
            && w.pending_deletes@[k].generation == w.generations@[i]
}

/// The `m`-th queued deletion of `w0` has taken effect in `w`: if its handle
/// was current in `w0`, the slot is no longer live and its generation has
/// moved on.
pub open spec fn applied_delete(w0: World, w: World, m: int) -> bool {
    let e = w0.pending_deletes@[m];
    (e.index < wlen(w0) && w0.alive@[e.index as int] && e.generation == w0.generations@[e.index as int])
        ==> (!w.alive@[e.index as int] && (w0.generations@[e.index as int] < u64::MAX
        ==> w.generations@[e.index as int] != w0.generations@[e.index as int]))
}

impl World {
    /// An empty world with no entities and nothing queued.
    pub fn new() -> (r: World)
        ensures
            wlen(r) == 0,
            r.pending_deletes@.len() == 0,
            r.pending_creates@.len() == 0,
            r.sounds@.len() == 0,
            wf(r),
    {
        World {
            generations: Vec::new(),
            alive: Vec::new(),
            spatial: Vec::new(),
            inertial: Vec::new(),
            bounding: Vec::new(),
            hitpoints: Vec::new(),
            lifetime: Vec::new(),
            shooter: Vec::new(),
            explodes: Vec::new(),
            exploding: Vec::new(),
            powerup: Vec::new(),
            controlled: Vec::new(),
            computed: Vec::new(),
            fading: Vec::new(),
            visual: Vec::new(),
            pending_deletes: Vec::new(),
            pending_creates: Vec::new(),
            sounds: Vec::new(),
        }
    }

    /// Whether the handle still refers to a live entity: the slot is live
    /// and its generation matches the handle's.
    pub fn is_alive(&self, e: Entity) -> (r: bool)
        requires
            stores_len_ok(*self),
        ensures
            r == (e.index < wlen(*self) && self.alive@[e.index as int]
                && self.generations@[e.index as int] == e.generation),
    {
        e.index < self.alive.len() && self.alive[e.index] && self.generations[e.index]
            == e.generation
    }

    /// Creates an entity immediately from a materialized bundle, reusing the
    /// first free slot or appending a new one.  Every other slot is left
    /// untouched.
    pub fn create_now(&mut self, d: &EntityDescriptor) -> (e: Entity)
        requires
            wf(*old(self)),
            bwf(*d),
        ensures
            wf(*final(self)),
            wlen(*final(self)) == if e.index < wlen(*old(self)) {
                wlen(*old(self))
            } else {
                wlen(*old(self)) + 1
            },
            e.index < wlen(*final(self)),
            e.index < wlen(*old(self)) ==> !old(self).alive@[e.index as int],
            e.index < wlen(*old(self)) ==> final(self).generations@[e.index as int] == old(
                self,
            ).generations@[e.index as int],
            final(self).alive@[e.index as int],
            final(self).generations@[e.index as int] == e.generation,
            entity_matches(*final(self), e.index as int, *d),
            forall|i: int|
                0 <= i < wlen(*old(self)) && i != e.index ==> same_slot(
                    *old(self),
                    *final(self),
                    i,
                ),
            final(self).pending_deletes@ == old(self).pending_deletes@,
            final(self).pending_creates@ == old(self).pending_creates@,
            final(self).sounds@ == old(self).sounds@,
    {
        let mut idx: usize = 0;
        let n = self.alive.len();
        while idx < n && self.alive[idx]
            invariant
                stores_len_ok(*self),
                n == wlen(*self),
                idx <= n,
            decreases n - idx,
        {
            idx = idx + 1;
        }
        if idx == n {
            self.generations.push(0);
            self.alive.push(true);
            self.spatial.push(d.spatial);
            self.inertial.push(d.inertial);
            self.bounding.push(d.bounding);
            self.hitpoints.push(d.hitpoints);
            self.lifetime.push(d.lifetime);
            self.shooter.push(d.shooter);
            self.explodes.push(d.explodes);
            self.exploding.push(None);
            self.powerup.push(d.powerup);
            self.controlled.push(d.controlled);
            self.computed.push(d.computed);
            self.fading.push(d.fading);
            self.visual.push(d.visual);
            proof {
                assert forall|i: int| 0 <= i < wlen(*self) implies slot_wf(*self, i) by {
                    if i < wlen(*old(self)) {
                        assert(slot_wf(*old(self), i));
                    }
                }
                assert forall|j: int|
                    0 <= j < self.pending_creates@.len() implies bwf(self.pending_creates@[j]) by {
                    assert(bwf(old(self).pending_creates@[j]));
                }
            }
            Entity { index: idx, generation: 0 }
        } else {
            let g = self.generations[idx];
            self.alive.set(idx, true);
            self.spatial.set(idx, d.spatial);
            self.inertial.set(idx, d.inertial);
            self.bounding.set(idx, d.bounding);
            self.hitpoints.set(idx, d.hitpoints);
            self.lifetime.set(idx, d.lifetime);
            self.shooter.set(idx, d.shooter);
            self.explodes.set(idx, d.explodes);
            self.exploding.set(idx, None);
            self.powerup.set(idx, d.powerup);
            self.controlled.set(idx, d.controlled);
            self.computed.set(idx, d.computed);
            self.fading.set(idx, d.fading);
            self.visual.set(idx, d.visual);
            proof {
                assert forall|i: int| 0 <= i < wlen(*self) implies slot_wf(*self, i) by {
                    if i != idx {
                        assert(slot_wf(*old(self), i));
                    }
                }
                assert forall|j: int|
                    0 <= j < self.pending_creates@.len() implies bwf(self.pending_creates@[j]) by {
                    assert(bwf(old(self).pending_creates@[j]));
                }
            }
            Entity { index: idx, generation: g }
        }
    }

    /// Queues the entity for deletion at the next `maintain`; nothing else
    /// changes.  Deleting a stale handle is a no-op at apply time.
    pub fn delete(&mut self, e: Entity)
        ensures
            final(self).pending_deletes@ == old(self).pending_deletes@.push(e),
            final(self).pending_creates@ == old(self).pending_creates@,
            final(self).sounds@ == old(self).sounds@,
            final(self).generations@ == old(self).generations@,
            final(self).alive@ == old(self).alive@,
            final(self).spatial@ == old(self).spatial@,
            final(self).inertial@ == old(self).inertial@,
            final(self).bounding@ == old(self).bounding@,
            final(self).hitpoints@ == old(self).hitpoints@,
            final(self).lifetime@ == old(self).lifetime@,
            final(self).shooter@ == old(self).shooter@,
            final(self).explodes@ == old(self).explodes@,
            final(self).exploding@ == old(self).exploding@,
            final(self).powerup@ == old(self).powerup@,
            final(self).controlled@ == old(self).controlled@,
            final(self).computed@ == old(self).computed@,
            final(self).fading@ == old(self).fading@,
            final(self).visual@ == old(self).visual@,
            wf(*old(self)) ==> wf(*final(self)),
    {
        self.pending_deletes.push(e);
        proof {
            if wf(*old(self)) {
                assert forall|i: int| 0 <= i < wlen(*self) implies slot_wf(*self, i) by {
                    assert(slot_wf(*old(self), i));
                }
                assert forall|j: int|
                    0 <= j < self.pending_creates@.len() implies bwf(self.pending_creates@[j]) by {
                    assert(bwf(old(self).pending_creates@[j]));
                }
            }
        }
    }

    /// Queues a materialized bundle for creation at the next `maintain`;
    /// nothing else changes.
    pub fn create_lazy(&mut self, d: EntityDescriptor)
        requires
            bwf(d),
        ensures
            final(self).pending_creates@ == old(self).pending_creates@.push(d),
            final(self).pending_deletes@ == old(self).pending_deletes@,
            final(self).sounds@ == old(self).sounds@,
            final(self).generations@ == old(self).generations@,
            final(self).alive@ == old(self).alive@,
            final(self).spatial@ == old(self).spatial@,
            final(self).inertial@ == old(self).inertial@,
            final(self).bounding@ == old(self).bounding@,
            final(self).hitpoints@ == old(self).hitpoints@,
            final(self).lifetime@ == old(self).lifetime@,
            final(self).shooter@ == old(self).shooter@,
            final(self).explodes@ == old(self).explodes@,
            final(self).exploding@ == old(self).exploding@,
            final(self).powerup@ == old(self).powerup@,
            final(self).controlled@ == old(self).controlled@,
            final(self).computed@ == old(self).computed@,
            final(self).fading@ == old(self).fading@,
            final(self).visual@ == old(self).visual@,
            wf(*old(self)) ==> wf(*final(self)),
    {
        self.pending_creates.push(d);
        proof {
            if wf(*old(self)) {
                assert forall|i: int| 0 <= i < wlen(*self) implies slot_wf(*self, i) by {
                    assert(slot_wf(*old(self), i));
                }
                assert forall|j: int|
                    0 <= j < self.pending_creates@.len() implies bwf(self.pending_creates@[j]) by {
                    if j < old(self).pending_creates@.len() {
                        assert(bwf(old(self).pending_creates@[j]));
                    }
                }
            }
        }
    }

    /// Requests a sound cue for the external audio sink; nothing else
    /// changes.
    pub fn play_sound(&mut self, name: String)
        ensures
            final(self).sounds@ == old(self).sounds@.push(name),
            final(self).pending_creates@ == old(self).pending_creates@,
            final(self).pending_deletes@ == old(self).pending_deletes@,
            final(self).generations@ == old(self).generations@,
            final(self).alive@ == old(self).alive@,
            final(self).spatial@ == old(self).spatial@,
            final(self).inertial@ == old(self).inertial@,
            final(self).bounding@ == old(self).bounding@,
            final(self).hitpoints@ == old(self).hitpoints@,
            final(self).lifetime@ == old(self).lifetime@,
            final(self).shooter@ == old(self).shooter@,
            final(self).explodes@ == old(self).explodes@,
            final(self).exploding@ == old(self).exploding@,
            final(self).powerup@ == old(self).powerup@,
            final(self).controlled@ == old(self).controlled@,
            final(self).computed@ == old(self).computed@,
            final(self).fading@ == old(self).fading@,
            final(self).visual@ == old(self).visual@,
            wf(*old(self)) ==> wf(*final(self)),
    {
        self.sounds.push(name);
        proof {
            if wf(*old(self)) {
                assert forall|i: int| 0 <= i < wlen(*self) implies slot_wf(*self, i) by {
                    assert(slot_wf(*old(self), i));
                }
                assert forall|j: int|
                    0 <= j < self.pending_creates@.len() implies bwf(self.pending_creates@[j]) by {
                    assert(bwf(old(self).pending_creates@[j]));
                }
            }
        }
    }

    /// Applies the deferred command queue in one atomic pass: queued
    /// deletions whose handle is still current take effect (the slot's
    /// generation is bumped and its components cleared), then queued
    /// creations are materialized in order.  Entities neither deleted nor
    /// created keep their components unchanged.
    pub fn maintain(&mut self)
        requires
            wf(*old(self)),
        ensures
            wf(*final(self)),
            final(self).pending_deletes@.len() == 0,
            final(self).pending_creates@.len() == 0,
            final(self).sounds@ == old(self).sounds@,
            wlen(*final(self)) >= wlen(*old(self)),
            forall|i: int|
                0 <= i < wlen(*old(self)) && old(self).alive@[i] && !delete_queued(*old(self), i)
                    && !final(self).alive@[i] ==> false,
            forall|i: int|
                0 <= i < wlen(*old(self)) && old(self).alive@[i] && delete_queued(*old(self), i)
                    && old(self).generations@[i] < u64::MAX ==> !(final(self).alive@[i]
                    && final(self).generations@[i] == old(self).generations@[i]),
            forall|i: int|
                #![trigger final(self).alive@[i]]
                0 <= i < wlen(*old(self)) && old(self).alive@[i] && !delete_queued(*old(self), i)
                    ==> same_slot(*old(self), *final(self), i),
            forall|i: int|
                #![trigger final(self).alive@[i]]
                0 <= i < wlen(*final(self)) && final(self).alive@[i] && !(i < wlen(*old(self))
                    && old(self).alive@[i] && !delete_queued(*old(self), i)) ==> exists|j: int|
                    0 <= j < old(self).pending_creates@.len() && entity_matches(
                        *final(self),
                        i,
                        old(self).pending_creates@[j],
                    ),
    {
        let ghost w0 = *self;
        let mut k: usize = 0;
        let dn = self.pending_deletes.len();
        while k < dn
            invariant
                wf(*self),
                dn == w0.pending_deletes@.len(),
                k <= dn,
                self.pending_deletes@ == w0.pending_deletes@,
                self.pending_creates@ == w0.pending_creates@,
                self.sounds@ == w0.sounds@,
                wlen(*self) == wlen(w0),
                forall|i: int|
                    #![trigger self.alive@[i]]
                    0 <= i < wlen(w0) && w0.alive@[i] && !delete_queued(w0, i) ==> same_slot(
                        w0,
                        *self,
                        i,
                    ),
                forall|i: int|
                    #![trigger self.alive@[i]]
                    0 <= i < wlen(w0) && !w0.alive@[i] ==> same_slot(w0, *self, i),
                forall|i: int|
                    0 <= i < wlen(w0) && w0.alive@[i] && self.alive@[i] ==> self.generations@[i]
                        == w0.generations@[i],
                forall|i: int|
                    0 <= i < wlen(w0) && w0.alive@[i] && !self.alive@[i] ==> (w0.generations@[i]
                        < u64::MAX ==> self.generations@[i] != w0.generations@[i]),
                forall|m: int| 0 <= m < k ==> applied_delete(w0, *self, m),
            decreases dn - k,
        {
            let e = self.pending_deletes[k];
            let ghost pre = *self;
            let cur = e.index < self.alive.len() && self.alive[e.index] && self.generations[e.index]
                == e.generation;
            if cur {
                let idx = e.index;
                let g = self.generations[idx];
                let g2 = if g < u64::MAX {
                    g + 1
                } else {
                    g
                };
                self.generations.set(idx, g2);
                self.alive.set(idx, false);
                self.spatial.set(idx, None);
                self.inertial.set(idx, None);
                self.bounding.set(idx, None);
                self.hitpoints.set(idx, None);
                self.lifetime.set(idx, None);
                self.shooter.set(idx, None);
                self.explodes.set(idx, None);
                self.exploding.set(idx, None);
                self.powerup.set(idx, None);
                self.controlled.set(idx, None);
                self.computed.set(idx, None);
                self.fading.set(idx, None);
                self.visual.set(idx, None);
                proof {
                    assert(w0.alive@[idx as int]);
                    assert(delete_queued(w0, idx as int));
                    assert forall|i: int| 0 <= i < wlen(*self) implies slot_wf(*self, i) by {
                        if i != idx {
                            assert(slot_wf(pre, i));
                        }
                    }
                    assert forall|i: int|
                        0 <= i < wlen(w0) && w0.alive@[i] && !delete_queued(w0, i) implies
                        same_slot(w0, *self, i) by {
                        assert(same_slot(w0, pre, i));
                    }
                    assert forall|i: int|
                        0 <= i < wlen(w0) && !w0.alive@[i] implies same_slot(w0, *self, i) by {
                        assert(same_slot(w0, pre, i));
                    }
                    assert forall|j: int|
                        0 <= j < self.pending_creates@.len() implies bwf(
                        self.pending_creates@[j],
                    ) by {
                        assert(bwf(pre.pending_creates@[j]));
                    }
                }
            }
            k = k + 1;
            proof {
                assert forall|m: int| 0 <= m < k implies applied_delete(w0, *self, m) by {
                    if m < k - 1 {
                        assert(applied_delete(w0, pre, m));
                    } else {
                        let t = w0.pending_deletes@[m];
                        if t.index < wlen(w0) && w0.alive@[t.index as int] && t.generation
                            == w0.generations@[t.index as int] {
                            if !cur {
                                assert(!pre.alive@[t.index as int]);
                            }
                        }
                    }
                }
            }
        }
        let ghost wd = *self;
        self.pending_deletes = Vec::new();
        proof {
            assert forall|i: int| 0 <= i < wlen(*self) implies slot_wf(*self, i) by {
                assert(slot_wf(wd, i));
            }
            assert forall|j: int|
                0 <= j < self.pending_creates@.len() implies bwf(self.pending_creates@[j]) by {
                assert(bwf(wd.pending_creates@[j]));
            }
        }
        let ghost w1 = *self;
        let mut j: usize = 0;
        let cn = self.pending_creates.len();
        while j < cn
            invariant
                wf(*self),
                cn == w1.pending_creates@.len(),
                j <= cn,
                self.pending_creates@ == w1.pending_creates@,
                self.pending_deletes@ == w1.pending_deletes@,
                self.pending_deletes@.len() == 0,
                self.sounds@ == w1.sounds@,
                wlen(*self) >= wlen(w1),
                forall|i: int|
                    #![trigger self.alive@[i]]
                    0 <= i < wlen(w1) && w1.alive@[i] ==> same_slot(w1, *self, i),
                forall|i: int|
                    0 <= i < wlen(w1) ==> self.generations@[i] == w1.generations@[i],
                forall|i: int|
                    #![trigger self.alive@[i]]
                    0 <= i < wlen(*self) && self.alive@[i] && !(i < wlen(w1) && w1.alive@[i]) ==>
                        exists|m: int|
                        0 <= m < j && entity_matches(*self, i, w1.pending_creates@[m]),
            decreases cn - j,
        {
            let d = self.pending_creates[j];
            let ghost before = *self;
            let e = self.create_now(&d);
            j = j + 1;
            proof {
                assert(entity_matches(*self, e.index as int, w1.pending_creates@[j - 1]));
                assert forall|i: int|
                    0 <= i < wlen(w1) && w1.alive@[i] implies same_slot(w1, *self, i) by {
                    assert(same_slot(w1, before, i));
                    assert(before.alive@[i]);
                    assert(same_slot(before, *self, i));
                }
                assert forall|i: int|
                    0 <= i < wlen(w1) implies self.generations@[i] == w1.generations@[i] by {
                    if i != e.index as int {
                        assert(same_slot(before, *self, i));
                    }
                }
                assert forall|i: int|
                    #![trigger self.alive@[i]]
                    0 <= i < wlen(*self) && self.alive@[i] && !(i < wlen(w1)
                        && w1.alive@[i]) implies exists|m: int|
                    0 <= m < j && entity_matches(*self, i, w1.pending_creates@[m]) by {
                    if i == e.index as int {
                        assert(entity_matches(*self, i, w1.pending_creates@[j - 1]));
                    } else {
                        assert(i < wlen(before));
                        assert(same_slot(before, *self, i));
                        assert(before.alive@[i]);
                        let m = choose|m: int|
                            0 <= m < j - 1 && entity_matches(before, i, w1.pending_creates@[m]);
                        assert(entity_matches(*self, i, w1.pending_creates@[m]));
                    }
                }
            }
        }
        let ghost wc = *self;
        self.pending_creates = Vec::new();
        proof {
            assert forall|i: int| 0 <= i < wlen(*self) implies slot_wf(*self, i) by {
                assert(slot_wf(wc, i));
            }
            assert forall|i: int|
                0 <= i < wlen(w0) && w0.alive@[i] && !delete_queued(w0, i) implies same_slot(
                w0,
                *self,
                i,
            ) by {
                assert(same_slot(w0, w1, i));
                assert(w1.alive@[i]);
                assert(same_slot(w1, wc, i));
            }
            assert forall|i: int|
                0 <= i < wlen(w0) && w0.alive@[i] && delete_queued(w0, i) && w0.generations@[i]
                    < u64::MAX implies !(self.alive@[i] && self.generations@[i]
                == w0.generations@[i]) by {
                let kk = choose|kk: int|
                    0 <= kk < w0.pending_deletes@.len() && w0.pending_deletes@[kk].index == i
                        && w0.pending_deletes@[kk].generation == w0.generations@[i];
                assert(applied_delete(w0, wd, kk));
                assert(applied_delete(w0, w1, kk));
                assert(!w1.alive@[i] && w1.generations@[i] != w0.generations@[i]);
                assert(self.generations@[i] == w1.generations@[i]);
            }
            assert forall|i: int|
                0 <= i < wlen(*self) && self.alive@[i] && !(i < wlen(w0) && w0.alive@[i]
                    && !delete_queued(w0, i)) implies exists|m: int|
                0 <= m < w0.pending_creates@.len() && entity_matches(
                    *self,
                    i,
                    w0.pending_creates@[m],
                ) by {
                if i < wlen(w1) && w1.alive@[i] {
                    assert(same_slot(w0, w1, i) || !w0.alive@[i] || delete_queued(w0, i));
                    if i < wlen(w0) && !w0.alive@[i] {
                        assert(same_slot(w0, w1, i));
                        assert(!w1.alive@[i]);
                    }
                    assert(i < wlen(w0) && w0.alive@[i]);
                    assert(delete_queued(w0, i));
                    let kk = choose|kk: int|
                        0 <= kk < w0.pending_deletes@.len() && w0.pending_deletes@[kk].index == i
                            && w0.pending_deletes@[kk].generation == w0.generations@[i];
                    assert(applied_delete(w0, wd, kk));
                    assert(applied_delete(w0, w1, kk));
                    assert(false);
                } else {
                    let m = choose|m: int|
                        0 <= m < cn && entity_matches(wc, i, w1.pending_creates@[m]);
                    assert(entity_matches(*self, i, w0.pending_creates@[m]));
                }
            }
        }
    }
}

impl EntityDescriptor {
    /// Creates an entity from this blueprint immediately, with the given
    /// overrides applied and age-relative timestamps shifted by `age`.
    pub fn spawn(
        &self,
        world: &mut World,
        age: i64,
        position: Option<crate::vec::Vec2>,
        angle: Option<crate::angle::Angle>,
        faction: Option<crate::def::FactionId>,
    ) -> (e: Entity)
        requires
            wf(*old(world)),
            crate::def::dwf(*self),
            0 <= age <= crate::components::COMP_BOUND,
            position is Some ==> crate::components::cfits((position->Some_0).0 as int)
                && crate::components::cfits((position->Some_0).1 as int),
            angle is Some ==> crate::components::cfits((angle->Some_0).0 as int),
        ensures
            wf(*final(world)),
            e.index < wlen(*final(world)),
            final(world).alive@[e.index as int],
            entity_matches(
                *final(world),
                e.index as int,
                crate::def::sconfigure(*self, age as int, position, angle, faction),
            ),
            forall|i: int|
                0 <= i < wlen(*old(world)) && i != e.index ==> same_slot(
                    *old(world),
                    *final(world),
                    i,
                ),
            final(world).pending_deletes@ == old(world).pending_deletes@,
            final(world).pending_creates@ == old(world).pending_creates@,
            final(world).sounds@ == old(world).sounds@,
    {
        let bundle = self.configure(age, position, angle, faction);
        world.create_now(&bundle)
    }

    /// Queues an entity from this blueprint for creation at the next
    /// maintain, with the given overrides applied.
    pub fn spawn_lazy(
        &self,
        world: &mut World,
        age: i64,
        position: Option<crate::vec::Vec2>,
        angle: Option<crate::angle::Angle>,
        faction: Option<crate::def::FactionId>,
    )
        requires
            wf(*old(world)),
            crate::def::dwf(*self),
            0 <= age <= crate::components::COMP_BOUND,
            position is Some ==> crate::components::cfits((position->Some_0).0 as int)
                && crate::components::cfits((position->Some_0).1 as int),
            angle is Some ==> crate::components::cfits((angle->Some_0).0 as int),
        ensures
            wf(*final(world)),
            final(world).pending_creates@ == old(world).pending_creates@.push(
                crate::def::sconfigure(*self, age as int, position, angle, faction),
            ),
            final(world).pending_deletes@ == old(world).pending_deletes@,
            final(world).sounds@ == old(world).sounds@,
            final(world).generations@ == old(world).generations@,
            final(world).alive@ == old(world).alive@,
            final(world).spatial@ == old(world).spatial@,
            final(world).inertial@ == old(world).inertial@,
            final(world).bounding@ == old(world).bounding@,
            final(world).hitpoints@ == old(world).hitpoints@,
            final(world).lifetime@ == old(world).lifetime@,
            final(world).shooter@ == old(world).shooter@,
            final(world).explodes@ == old(world).explodes@,
            final(world).exploding@ == old(world).exploding@,
            final(world).powerup@ == old(world).powerup@,
            final(world).controlled@ == old(world).controlled@,
            final(world).computed@ == old(world).computed@,
            final(world).fading@ == old(world).fading@,
            final(world).visual@ == old(world).visual@,
    {
        let bundle = self.configure(age, position, angle, faction);
        world.create_lazy(bundle);
    }
}

} // verus!
