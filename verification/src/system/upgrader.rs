//! The upgrade resolver: a pickup in proximity of a matching-faction
//! shooter replaces that shooter's active spawner.
//!
//! The pairwise scan is read-only; the collected matches are applied in
//! scan order.  Per match whose collector carries a shooter, the shooter's
//! spawner is rewired, the pickup's destruction trigger fires if it has
//! one, and the pickup is queued for deletion.

use vstd::prelude::*;
use crate::fx::smin;
use crate::vec::Vec2;
use crate::angle::Angle;
use crate::components::{Shooter, COMP_BOUND};
use crate::def::EntityDescriptor;
use crate::spawn::{ids_wf, inf_wf, spawner, Infrastructure};
use crate::system::collider::{sdist, sexplosion_creates, sexplosion_sounds};
use crate::world::{wf, wlen, slot_wf, Entity, World};

verus! {

/// Whether the pickup in slot `a` touches the body in slot `b`: both live,
/// distinct, of the pickup's faction, closer than the sum of their radii.
pub open spec fn upmatch(w: World, a: int, b: int) -> bool {
    &&& 0 <= a < wlen(w)
    &&& 0 <= b < wlen(w)
    &&& a != b
    &&& w.alive@[a] && w.alive@[b]
    &&& w.spatial@[a] is Some && w.powerup@[a] is Some
    &&& w.spatial@[b] is Some && w.bounding@[b] is Some
    &&& w.powerup@[a]->Some_0.faction == w.bounding@[b]->Some_0.faction
    &&& w.powerup@[a]->Some_0.radius + w.bounding@[b]->Some_0.radius > sdist(
        w.spatial@[a]->Some_0.position,
        w.spatial@[b]->Some_0.position,
    )
}

/// Every listed match holds.
pub open spec fn matches_sound(w: World, ms: Seq<(usize, usize)>) -> bool {
    forall|k: int| 0 <= k < ms.len() ==> upmatch(w, (#[trigger] ms[k]).0 as int, ms[k].1 as int)
}

/// Every match is listed.
pub open spec fn matches_complete(w: World, ms: Seq<(usize, usize)>) -> bool {
    forall|a: int, b: int|
        #![trigger upmatch(w, a, b)]
        upmatch(w, a, b) ==> exists|k: int| 0 <= k < ms.len() && ms[k] == (a as usize, b as usize)
}

/// The list is strictly ordered by pickup, then body.
pub open spec fn matches_lex(ms: Seq<(usize, usize)>) -> bool {
    forall|k1: int, k2: int|
        0 <= k1 < k2 < ms.len() ==> ((#[trigger] ms[k1]).0 < (#[trigger] ms[k2]).0 || (ms[k1].0
            == ms[k2].0 && ms[k1].1 < ms[k2].1))
}

/// The shooter store after applying the first `n` matches: each match whose
/// body carries a shooter rewires that shooter to the pickup's spawner.
pub open spec fn sup_shooter(w0: World, ms: Seq<(usize, usize)>, n: int) -> Seq<Option<Shooter>>
    decreases n,
{
    if n <= 0 {
        w0.shooter@
    } else {
        let prev = sup_shooter(w0, ms, n - 1);
        let a = ms[n - 1].0 as int;
        let b = ms[n - 1].1 as int;
        if prev[b] is Some {
            prev.update(
                b,
                Some(Shooter { spawner: w0.powerup@[a]->Some_0.spawner, ..prev[b]->Some_0 }),
            )
        } else {
            prev
        }
    }
}

/// The bundles queued while applying the first `n` matches: per applied
/// match, the pickup's destruction trigger if it has one.
pub open spec fn sup_creates(
    w0: World,
    inf: Infrastructure,
    ms: Seq<(usize, usize)>,
    n: int,
    age: int,
) -> Seq<EntityDescriptor>
    decreases n,
{
    if n <= 0 {
        Seq::empty()
    } else {
        let prev = sup_creates(w0, inf, ms, n - 1, age);
        let a = ms[n - 1].0 as int;
        let b = ms[n - 1].1 as int;
        if w0.shooter@[b] is Some && w0.explodes@[a] is Some {
            prev + sexplosion_creates(w0, inf, a, age)
        } else {
            prev
        }
    }
}

/// The sound cues requested while applying the first `n` matches.
pub open spec fn sup_sounds(
    w0: World,
    inf: Infrastructure,
    ms: Seq<(usize, usize)>,
    n: int,
) -> Seq<String>
    decreases n,
{
    if n <= 0 {
        Seq::empty()
    } else {
        let prev = sup_sounds(w0, inf, ms, n - 1);
        let a = ms[n - 1].0 as int;
        let b = ms[n - 1].1 as int;
        if w0.shooter@[b] is Some && w0.explodes@[a] is Some {
            prev + sexplosion_sounds(w0, inf, a)
        } else {
            prev
        }
    }
}

/// The deletions queued while applying the first `n` matches: per applied
/// match, the pickup.
pub open spec fn sup_deletes(w0: World, ms: Seq<(usize, usize)>, n: int) -> Seq<Entity>
    decreases n,
{
    if n <= 0 {
        Seq::empty()
    } else {
        let prev = sup_deletes(w0, ms, n - 1);
        let a = ms[n - 1].0 as int;
        let b = ms[n - 1].1 as int;
        if w0.shooter@[b] is Some {
            prev.push(Entity { index: ms[n - 1].0, generation: w0.generations@[a] })
        } else {
            prev
        }
    }
}

/// The upgrade resolver.
pub struct Upgrader;

impl Upgrader {
    /// One upgrade pass: collects every pickup-body match, then rewires the
    /// matched shooters, fires the pickups' destruction triggers and queues
    /// the pickups for deletion, in scan order.
    pub fn run(&mut self, world: &mut World, inf: &Infrastructure, age: i64) -> (ms: Vec<
        (usize, usize),
    >)
        requires
            wf(*old(world)),
            inf_wf(*inf),
            ids_wf(*old(world), *inf),
            0 <= age <= COMP_BOUND,
        ensures
            wf(*final(world)),
            ids_wf(*final(world), *inf),
            matches_sound(*old(world), ms@),
            matches_complete(*old(world), ms@),
            matches_lex(ms@),
            final(world).shooter@ == sup_shooter(*old(world), ms@, ms@.len() as int),
            final(world).pending_creates@ == old(world).pending_creates@ + sup_creates(
                *old(world),
                *inf,
                ms@,
                ms@.len() as int,
                age as int,
            ),
            final(world).sounds@ == old(world).sounds@ + sup_sounds(
                *old(world),
                *inf,
                ms@,
                ms@.len() as int,
            ),
            final(world).pending_deletes@ == old(world).pending_deletes@ + sup_deletes(
                *old(world),
                ms@,
                ms@.len() as int,
            ),
            final(world).generations@ == old(world).generations@,
            final(world).alive@ == old(world).alive@,
            final(world).spatial@ == old(world).spatial@,
            final(world).inertial@ == old(world).inertial@,
            final(world).bounding@ == old(world).bounding@,
            final(world).hitpoints@ == old(world).hitpoints@,
            final(world).lifetime@ == old(world).lifetime@,
            final(world).explodes@ == old(world).explodes@,
            final(world).exploding@ == old(world).exploding@,
            final(world).powerup@ == old(world).powerup@,
            final(world).controlled@ == old(world).controlled@,
            final(world).computed@ == old(world).computed@,
            final(world).fading@ == old(world).fading@,
            final(world).visual@ == old(world).visual@,
    {
        let ghost w0 = *world;
        let n = world.alive.len();
        let mut ms: Vec<(usize, usize)> = Vec::new();
        let mut i: usize = 0;
        while i < n
            invariant
                wf(*world),
                *world == w0,
                n == wlen(w0),
                i <= n,
                matches_sound(w0, ms@),
                matches_lex(ms@),
                forall|k: int| 0 <= k < ms@.len() ==> (#[trigger] ms@[k]).0 < i,
                forall|a: int, b: int|
                    #![trigger upmatch(w0, a, b)]
                    upmatch(w0, a, b) && a < i ==> exists|k: int|
                        0 <= k < ms@.len() && ms@[k] == (a as usize, b as usize),
            decreases n - i,
        {
            let mut j: usize = 0;
            while j < n
                invariant
                    wf(*world),
                    *world == w0,
                    n == wlen(w0),
                    i < n,
                    j <= n,
                    matches_sound(w0, ms@),
                    matches_lex(ms@),
                    forall|k: int|
                        0 <= k < ms@.len() ==> (#[trigger] ms@[k]).0 < i || (ms@[k].0 == i
                            && ms@[k].1 < j),
                    forall|a: int, b: int|
                        #![trigger upmatch(w0, a, b)]
                        upmatch(w0, a, b) && (a < i || (a == i && b < j)) ==> exists|k: int|
                            0 <= k < ms@.len() && ms@[k] == (a as usize, b as usize),
                decreases n - j,
            {
                let mut hit = false;
                if i != j && world.alive[i] && world.alive[j] {
                    if let Some(sa) = world.spatial[i] {
                        if let Some(pu) = world.powerup[i] {
                            if let Some(sb) = world.spatial[j] {
                                if let Some(bb) = world.bounding[j] {
                                    if pu.faction.0 == bb.faction.0 {
                                        proof {
                                            assert(slot_wf(w0, i as int));
                                            assert(slot_wf(w0, j as int));
                                        }
                                        let dist = sa.position.distance(sb.position);
                                        if pu.radius + bb.radius > dist {
                                            hit = true;
                                        }
                                    }
                                }
                            }
                        }
                    }
                }
                proof {
                    assert(hit == upmatch(w0, i as int, j as int));
                }
                let ghost ms0 = ms@;
                if hit {
                    ms.push((i, j));
                }
                j = j + 1;
                proof {
                    assert forall|a: int, b: int|
                        upmatch(w0, a, b) && (a < i || (a == i && b < j)) implies exists|k: int|
                        0 <= k < ms@.len() && ms@[k] == (a as usize, b as usize) by {
                        if a == i && b == j - 1 {
                            assert(hit);
                            assert(ms@[ms@.len() - 1] == (i, (j - 1) as usize));
                        } else {
                            let kk = choose|kk: int|
                                0 <= kk < ms0.len() && ms0[kk] == (a as usize, b as usize);
                            assert(ms@[kk] == (a as usize, b as usize));
                        }
                    }
                }
            }
            i = i + 1;
        }
        proof {
            assert forall|a: int, b: int| upmatch(w0, a, b) implies exists|k: int|
                0 <= k < ms@.len() && ms@[k] == (a as usize, b as usize) by {
                assert(a < n);
            }
        }
        let ghost mss = ms@;
        let m = ms.len();
        let mut k: usize = 0;
        while k < m
            invariant
                wf(*world),
                wf(w0),
                inf_wf(*inf),
                ids_wf(*world, *inf),
                0 <= age <= COMP_BOUND,
                n == wlen(w0),
                wlen(*world) == wlen(w0),
                m == mss.len(),
                k <= m,
                ms@ == mss,
                matches_sound(w0, mss),
                world.shooter@ == sup_shooter(w0, mss, k as int),
                world.shooter@.len() == w0.shooter@.len(),
                forall|t: int|
                    0 <= t < wlen(w0) ==> (#[trigger] world.shooter@[t] is Some == w0.shooter@[t] is Some),
                world.pending_creates@ == w0.pending_creates@ + sup_creates(
                    w0,
                    *inf,
                    mss,
                    k as int,
                    age as int,
                ),
                world.sounds@ == w0.sounds@ + sup_sounds(w0, *inf, mss, k as int),
                world.pending_deletes@ == w0.pending_deletes@ + sup_deletes(w0, mss, k as int),
                world.generations@ == w0.generations@,
                world.alive@ == w0.alive@,
                world.spatial@ == w0.spatial@,
                world.inertial@ == w0.inertial@,
                world.bounding@ == w0.bounding@,
                world.hitpoints@ == w0.hitpoints@,
                world.lifetime@ == w0.lifetime@,
                world.explodes@ == w0.explodes@,
                world.exploding@ == w0.exploding@,
                world.powerup@ == w0.powerup@,
                world.controlled@ == w0.controlled@,
                world.computed@ == w0.computed@,
                world.fading@ == w0.fading@,
                world.visual@ == w0.visual@,
            decreases m - k,
        {
            let (a, b) = ms[k];
            proof {
                assert(upmatch(w0, a as int, b as int));
                assert(slot_wf(w0, a as int));
            }
            let has_shooter = world.shooter[b].is_some();
            if has_shooter {
                let pu = match world.powerup[a] {
                    Some(p) => p,
                    None => {
                        proof {
                            assert(false);
                        }
                        Vec2(0, 0).is_zero();
                        return ms;
                    },
                };
                let sh = match world.shooter[b] {
                    Some(s) => s,
                    None => {
                        proof {
                            assert(false);
                        }
                        return ms;
                    },
                };
                let ghost pre = *world;
                world.shooter.set(b, Some(Shooter { spawner: pu.spawner, ..sh }));
                proof {
                    assert forall|t: int| 0 <= t < wlen(*world) implies slot_wf(*world, t) by {
                        assert(slot_wf(pre, t));
                    }
                    assert forall|jj: int|
                        0 <= jj < world.pending_creates@.len() implies crate::spawn::bundle_ids_ok(
                        #[trigger] world.pending_creates@[jj],
                        *inf,
                    ) by {
                        assert(crate::spawn::bundle_ids_ok(pre.pending_creates@[jj], *inf));
                    }
                    assert forall|t: int|
                        0 <= t < wlen(*world) && world.alive@[t]
                            && #[trigger] world.shooter@[t] is Some implies
                        world.shooter@[t]->Some_0.spawner.0 < inf.spawner.len() by {
                        if t != b {
                            assert(pre.alive@[t] && pre.shooter@[t] is Some
                                ==> pre.shooter@[t]->Some_0.spawner.0 < inf.spawner.len());
                        } else {
                            assert(pre.alive@[a as int] && pre.powerup@[a as int] is Some
                                ==> pre.powerup@[a as int]->Some_0.spawner.0 < inf.spawner.len());
                        }
                    }
                }
                if let Some(ex) = world.explodes[a] {
                    let pos = match world.spatial[a] {
                        Some(s) => s.position,
                        None => Vec2(0, 0),
                    };
                    spawner(world, inf, ex.spawner, Angle(0), Some(pos), None, None, age);
                }
                let del = Entity { index: a, generation: world.generations[a] };
                world.delete(del);
            }
            k = k + 1;
            proof {
                assert(world.shooter@ =~= sup_shooter(w0, mss, k as int));
                assert(world.pending_creates@ =~= w0.pending_creates@ + sup_creates(
                    w0,
                    *inf,
                    mss,
                    k as int,
                    age as int,
                ));
                assert(world.sounds@ =~= w0.sounds@ + sup_sounds(w0, *inf, mss, k as int));
                assert(world.pending_deletes@ =~= w0.pending_deletes@ + sup_deletes(
                    w0,
                    mss,
                    k as int,
                ));
            }
        }
        ms
    }
}

} // verus!
