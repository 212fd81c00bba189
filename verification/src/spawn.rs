//! The spawn protocol: instantiates templated entities and sound cues
//! relative to a trigger origin.
//!
//! For each directive of the named spawner, the directive's offset is
//! rotated by the triggering entity's angle and added to the trigger
//! position; the directive's base blueprint is materialized there and queued
//! for creation at the next maintain.  Sound cues are appended to the
//! world's request list for an external audio sink.

use vstd::prelude::*;
use crate::fx::{sclamp, clamp_i};
use crate::vec::Vec2;
use crate::angle::{srotate, Angle};
use crate::components::{cfits, COMP_BOUND};
use crate::def::{
    dwf, sconfigure, EntityDescriptor, FactionId, SpawnerDescriptor, SpawnerId,
    SpawnerParameters,
};
use crate::repository::Repository;
use crate::world::{wf, World};

verus! {

/// The read-only template context the simulation runs against: entity
/// blueprints by name and spawner descriptors by id.
pub struct Infrastructure {
    /// Entity blueprints, looked up by name.
    pub repository: Repository<EntityDescriptor>,
    /// Spawner descriptors, looked up by id.
    pub spawner: Repository<SpawnerDescriptor>,
}

/// A directive is well formed against the blueprint repository: its offset
/// is bounded, and the entity it names exists.
pub open spec fn directive_wf(inf: Infrastructure, d: SpawnerParameters) -> bool {
    &&& cfits(d.position.0 as int)
    &&& cfits(d.position.1 as int)
    &&& cfits(d.angle.0 as int)
    &&& (d.entity is Some ==> inf.repository.has_key(d.entity->Some_0@))
}

/// Every spawner id a bundle's components reference exists in the spawner
/// repository.
pub open spec fn bundle_ids_ok(d: EntityDescriptor, inf: Infrastructure) -> bool {
    &&& (d.shooter is Some ==> d.shooter->Some_0.spawner.0 < inf.spawner.len())
    &&& (d.explodes is Some ==> d.explodes->Some_0.spawner.0 < inf.spawner.len())
    &&& (d.powerup is Some ==> d.powerup->Some_0.spawner.0 < inf.spawner.len())
}

/// The whole template context is well formed: every blueprint is within its
/// stated ranges and references only existing spawners, and every directive
/// of every spawner resolves.
pub open spec fn inf_wf(inf: Infrastructure) -> bool {
    &&& inf.repository.wf()
    &&& inf.spawner.wf()
    &&& forall|i: int|
        0 <= i < inf.repository.len() ==> dwf(#[trigger] inf.repository.at(i)) && bundle_ids_ok(
            inf.repository.at(i),
            inf,
        )
    &&& forall|s: int, k: int|
        0 <= s < inf.spawner.len() && 0 <= k < inf.spawner.at(s).entities@.len() ==> directive_wf(
            inf,
            inf.spawner.at(s).entities@[k],
        )
}

/// Every spawner id a live slot's components reference exists in the
/// spawner repository, and so for every queued creation bundle.
pub open spec fn ids_wf(w: World, inf: Infrastructure) -> bool {
    &&& forall|i: int|
        0 <= i < crate::world::wlen(w) && w.alive@[i] && #[trigger] w.shooter@[i] is Some
            ==> w.shooter@[i]->Some_0.spawner.0 < inf.spawner.len()
    &&& forall|i: int|
        0 <= i < crate::world::wlen(w) && w.alive@[i] && #[trigger] w.explodes@[i] is Some
            ==> w.explodes@[i]->Some_0.spawner.0 < inf.spawner.len()
    &&& forall|i: int|
        0 <= i < crate::world::wlen(w) && w.alive@[i] && #[trigger] w.exploding@[i] is Some
            ==> w.exploding@[i]->Some_0.spawner.0 < inf.spawner.len()
    &&& forall|i: int|
        0 <= i < crate::world::wlen(w) && w.alive@[i] && #[trigger] w.powerup@[i] is Some
            ==> w.powerup@[i]->Some_0.spawner.0 < inf.spawner.len()
    &&& forall|j: int|
        0 <= j < w.pending_creates@.len() ==> bundle_ids_ok(#[trigger] w.pending_creates@[j], inf)
}

/// Id well-formedness carries over to a world with the same component
/// stores, as long as its queued bundles are themselves well referenced.
pub proof fn lemma_ids_same_stores(w1: World, w2: World, inf: Infrastructure)
    requires
        ids_wf(w1, inf),
        crate::world::wlen(w2) == crate::world::wlen(w1),
        w2.alive@ == w1.alive@,
        w2.shooter@ == w1.shooter@,
        w2.explodes@ == w1.explodes@,
        w2.exploding@ == w1.exploding@,
        w2.powerup@ == w1.powerup@,
        forall|j: int|
            0 <= j < w2.pending_creates@.len() ==> bundle_ids_ok(
                #[trigger] w2.pending_creates@[j],
                inf,
            ),
    ensures
        ids_wf(w2, inf),
{
}

/// Materializing a bundle keeps its spawner references.
pub proof fn lemma_configure_ids(
    inf: Infrastructure,
    d: EntityDescriptor,
    age: int,
    position: Option<Vec2>,
    angle: Option<Angle>,
    faction: Option<FactionId>,
)
    requires
        bundle_ids_ok(d, inf),
    ensures
        bundle_ids_ok(sconfigure(d, age, position, angle, faction), inf),
{
}

/// Every bundle a spawner's directives materialize references only existing
/// spawners.
pub proof fn lemma_screated_ids(
    inf: Infrastructure,
    ds: Seq<SpawnerParameters>,
    n: int,
    age: int,
    parent_angle: Angle,
    parent_position: Option<Vec2>,
    angle: Option<Angle>,
    faction: Option<FactionId>,
)
    requires
        inf_wf(inf),
        forall|k: int| 0 <= k < ds.len() ==> directive_wf(inf, #[trigger] ds[k]),
        n <= ds.len(),
    ensures
        forall|j: int|
            0 <= j < screated(inf, ds, n, age, parent_angle, parent_position, angle, faction).len()
                ==> bundle_ids_ok(
                #[trigger] screated(
                    inf,
                    ds,
                    n,
                    age,
                    parent_angle,
                    parent_position,
                    angle,
                    faction,
                )[j],
                inf,
            ),
    decreases n,
{
    if n > 0 {
        lemma_screated_ids(inf, ds, n - 1, age, parent_angle, parent_position, angle, faction);
        let prev = screated(inf, ds, n - 1, age, parent_angle, parent_position, angle, faction);
        let out = screated(inf, ds, n, age, parent_angle, parent_position, angle, faction);
        if ds[n - 1].entity is Some {
            assert(directive_wf(inf, ds[n - 1]));
            lemma_resolved_in_range(inf, ds[n - 1].entity->Some_0@);
            let idx = inf.repository.resolved(ds[n - 1].entity->Some_0@);
            lemma_configure_ids(
                inf,
                inf.repository.at(idx),
                age,
                Some(sspawn_pos(ds[n - 1], parent_angle, parent_position)),
                angle,
                faction,
            );
        }
        assert forall|j: int| 0 <= j < out.len() implies bundle_ids_ok(out[j], inf) by {
            if j < prev.len() {
                assert(bundle_ids_ok(prev[j], inf));
            }
        }
    }
}

/// A key that exists resolves to an index in range.
pub proof fn lemma_resolved_in_range(inf: Infrastructure, key: Seq<char>)
    requires
        inf.repository.has_key(key),
    ensures
        0 <= inf.repository.resolved(key) < inf.repository.len(),
        inf.repository.key_at(inf.repository.resolved(key)) == key,
{
    let i = choose|i: int| 0 <= i < inf.repository.len() && inf.repository.key_at(i) == key;
    lemma_max_match(inf, key, i);
}

/// Among the indices carrying `key`, there is a greatest one, so `resolved`
/// yields a valid index.
proof fn lemma_max_match(inf: Infrastructure, key: Seq<char>, i: int)
    requires
        0 <= i < inf.repository.len(),
        inf.repository.key_at(i) == key,
    ensures
        0 <= inf.repository.resolved(key) < inf.repository.len(),
        inf.repository.key_at(inf.repository.resolved(key)) == key,
    decreases inf.repository.len() - i,
{
    if exists|j: int| i < j < inf.repository.len() && inf.repository.key_at(j) == key {
        let j = choose|j: int| i < j < inf.repository.len() && inf.repository.key_at(j) == key;
        lemma_max_match(inf, key, j);
    } else {
        assert(0 <= i < inf.repository.len() && inf.repository.key_at(i) == key && forall|j: int|
            i < j < inf.repository.len() ==> inf.repository.key_at(j) != key);
        let w = choose|w: int|
            0 <= w < inf.repository.len() && inf.repository.key_at(w) == key && forall|j: int|
                w < j < inf.repository.len() ==> inf.repository.key_at(j) != key;
        assert(inf.repository.key_at(w) == key);
    }
}

/// The world position a directive spawns at: its offset rotated by the
/// trigger's angle, added to the trigger position if one is given, clamped
/// to the stored component range.
pub open spec fn sspawn_pos(
    d: SpawnerParameters,
    parent_angle: Angle,
    parent_position: Option<Vec2>,
) -> Vec2 {
    let rot = srotate(d.position, parent_angle.0 as int);
    let base = match parent_position {
        Some(pp) => Vec2((pp.0 + rot.0) as i64, (pp.1 + rot.1) as i64),
        None => rot,
    };
    Vec2(
        sclamp(base.0 as int, -COMP_BOUND as int, COMP_BOUND as int) as i64,
        sclamp(base.1 as int, -COMP_BOUND as int, COMP_BOUND as int) as i64,
    )
}

/// The bundle a directive materializes.
pub open spec fn sdirective_bundle(
    inf: Infrastructure,
    d: SpawnerParameters,
    age: int,
    parent_angle: Angle,
    parent_position: Option<Vec2>,
    angle: Option<Angle>,
    faction: Option<FactionId>,
) -> EntityDescriptor {
    sconfigure(
        inf.repository.at(inf.repository.resolved(d.entity->Some_0@)),
        age,
        Some(sspawn_pos(d, parent_angle, parent_position)),
        angle,
        faction,
    )
}

/// The bundles the first `n` directives materialize, in order.
pub open spec fn screated(
    inf: Infrastructure,
    ds: Seq<SpawnerParameters>,
    n: int,
    age: int,
    parent_angle: Angle,
    parent_position: Option<Vec2>,
    angle: Option<Angle>,
    faction: Option<FactionId>,
) -> Seq<EntityDescriptor>
    decreases n,
{
    if n <= 0 {
        Seq::empty()
    } else {
        let prev = screated(inf, ds, n - 1, age, parent_angle, parent_position, angle, faction);
        if ds[n - 1].entity is Some {
            prev.push(
                sdirective_bundle(
                    inf,
                    ds[n - 1],
                    age,
                    parent_angle,
                    parent_position,
                    angle,
                    faction,
                ),
            )
        } else {
            prev
        }
    }
}

/// The sound cues the first `n` directives request, in order.
pub open spec fn ssounds(ds: Seq<SpawnerParameters>, n: int) -> Seq<String>
    decreases n,
{
    if n <= 0 {
        Seq::empty()
    } else {
        let prev = ssounds(ds, n - 1);
        if ds[n - 1].sound is Some {
            prev.push(ds[n - 1].sound->Some_0)
        } else {
            prev
        }
    }
}

/// Fires every directive of the named spawner: queues one materialized
/// entity per directive that names a blueprint, and requests one sound per
/// directive that names a cue.  Nothing else in the world changes; the
/// queued structural changes take effect at the next maintain.
#[verifier::rlimit(100)]
pub fn spawner(
    world: &mut World,
    inf: &Infrastructure,
    spawner_id: SpawnerId,
    parent_angle: Angle,
    parent_position: Option<Vec2>,
    angle: Option<Angle>,
    faction: Option<FactionId>,
    age: i64,
)
    requires
        wf(*old(world)),
        inf_wf(*inf),
        spawner_id.0 < inf.spawner.len(),
        0 <= age <= COMP_BOUND,
        cfits(parent_angle.0 as int),
        parent_position is Some ==> cfits((parent_position->Some_0).0 as int) && cfits(
            (parent_position->Some_0).1 as int,
        ),
        angle is Some ==> cfits((angle->Some_0).0 as int),
    ensures
        wf(*final(world)),
        final(world).pending_creates@ == old(world).pending_creates@ + screated(
            *inf,
            inf.spawner.at(spawner_id.0 as int).entities@,
            inf.spawner.at(spawner_id.0 as int).entities@.len() as int,
            age as int,
            parent_angle,
            parent_position,
            angle,
            faction,
        ),
        final(world).sounds@ == old(world).sounds@ + ssounds(
            inf.spawner.at(spawner_id.0 as int).entities@,
            inf.spawner.at(spawner_id.0 as int).entities@.len() as int,
        ),
        final(world).pending_deletes@ == old(world).pending_deletes@,
        final(world).generations@ == old(world).generations@,
        final(world).alive@ == old(world).alive@,
        final(world).spatial@ == old(world).spatial@,
        final(world).inertial@ == old(world).inertial@,
        final(world).bounding@ == old(world).bounding@,
        final(world).hitpoints@ == old(world).hitpoints@,
        final(world).lifetime@ == old(world).lifetime@,
        final(world).shooter@ == old(world).shooter@,
        final(world).explodes@ == old(world).explodes@,
        final(world).exploding@ == old(world).exploding@,
        final(world).powerup@ == old(world).powerup@,
        final(world).controlled@ == old(world).controlled@,
        final(world).computed@ == old(world).computed@,
        final(world).fading@ == old(world).fading@,
        final(world).visual@ == old(world).visual@,
        ids_wf(*old(world), *inf) ==> ids_wf(*final(world), *inf),
{
    let ghost w0 = *world;
    let sp = inf.spawner.index(spawner_id.0);
    let ghost ds = sp.entities@;
    let n = sp.entities.len();
    let mut k: usize = 0;
    while k < n
        invariant
            wf(*world),
            inf_wf(*inf),
            spawner_id.0 < inf.spawner.len(),
            0 <= age <= COMP_BOUND,
            cfits(parent_angle.0 as int),
            parent_position is Some ==> cfits((parent_position->Some_0).0 as int) && cfits(
                (parent_position->Some_0).1 as int,
            ),
            angle is Some ==> cfits((angle->Some_0).0 as int),
            k <= n,
            ds == inf.spawner.at(spawner_id.0 as int).entities@,
            n == ds.len(),
            sp.entities@ == ds,
            world.pending_creates@ == w0.pending_creates@ + screated(
                *inf,
                ds,
                k as int,
                age as int,
                parent_angle,
                parent_position,
                angle,
                faction,
            ),
            world.sounds@ == w0.sounds@ + ssounds(ds, k as int),
            world.pending_deletes@ == w0.pending_deletes@,
            world.generations@ == w0.generations@,
            world.alive@ == w0.alive@,
            world.spatial@ == w0.spatial@,
            world.inertial@ == w0.inertial@,
            world.bounding@ == w0.bounding@,
            world.hitpoints@ == w0.hitpoints@,
            world.lifetime@ == w0.lifetime@,
            world.shooter@ == w0.shooter@,
            world.explodes@ == w0.explodes@,
            world.exploding@ == w0.exploding@,
            world.powerup@ == w0.powerup@,
            world.controlled@ == w0.controlled@,
            world.computed@ == w0.computed@,
            world.fading@ == w0.fading@,
            world.visual@ == w0.visual@,
        decreases n - k,
    {
        let d = &sp.entities[k];
        proof {
            assert(directive_wf(*inf, ds[k as int]));
        }
        if let Some(name) = &d.entity {
            let rot = d.position.rotate(parent_angle);
            let base = match parent_position {
                Some(pp) => Vec2(pp.0 + rot.0, pp.1 + rot.1),
                None => rot,
            };
            let pos = Vec2(
                clamp_i(base.0, -COMP_BOUND, COMP_BOUND),
                clamp_i(base.1, -COMP_BOUND, COMP_BOUND),
            );
            let looked = inf.repository.name(name);
            match looked {
                Some(descriptor) => {
                    proof {
                        assert(dwf(inf.repository.at(inf.repository.resolved(name@))));
                    }
                    let bundle = descriptor.configure(age, Some(pos), angle, faction);
                    world.create_lazy(bundle);
                },
                None => {
                    proof {
                        assert(false);
                    }
                },
            }
        }
        if let Some(snd) = &d.sound {
            world.play_sound(snd.clone());
        }
        k = k + 1;
        proof {
            assert(world.pending_creates@ == w0.pending_creates@ + screated(
                *inf,
                ds,
                k as int,
                age as int,
                parent_angle,
                parent_position,
                angle,
                faction,
            ));
            assert(world.sounds@ =~= w0.sounds@ + ssounds(ds, k as int));
        }
    }
    proof {
        if ids_wf(w0, *inf) {
            assert forall|t: int| 0 <= t < ds.len() implies directive_wf(*inf, #[trigger] ds[t]) by {
                assert(directive_wf(*inf, inf.spawner.at(spawner_id.0 as int).entities@[t]));
            }
            lemma_screated_ids(
                *inf,
                ds,
                ds.len() as int,
                age as int,
                parent_angle,
                parent_position,
                angle,
                faction,
            );
            assert forall|jj: int|
                0 <= jj < world.pending_creates@.len() implies bundle_ids_ok(
                #[trigger] world.pending_creates@[jj],
                *inf,
            ) by {
                if jj < w0.pending_creates@.len() {
                    assert(bundle_ids_ok(w0.pending_creates@[jj], *inf));
                } else {
                    let sc = screated(
                        *inf,
                        ds,
                        ds.len() as int,
                        age as int,
                        parent_angle,
                        parent_position,
                        angle,
                        faction,
                    );
                    assert(world.pending_creates@[jj] == sc[jj - w0.pending_creates@.len()]);
                    assert(bundle_ids_ok(sc[jj - w0.pending_creates@.len()], *inf));
                }
            }
        }
    }
}

} // verus!
