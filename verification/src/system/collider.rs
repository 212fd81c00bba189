//! The collision and damage resolver.
//!
//! The pairwise scan is read-only: it first collects every ordered pair of
//! distinct, overlapping, opposing-faction bodies, then resolves the
//! collected list.  Per collected pair, the lesser of the two current
//! health values is subtracted from both sides; a side whose health thereby
//! crosses to zero or below and that carries a destruction trigger fires
//! its spawner at that entity's position.

use vstd::prelude::*;
use crate::fx::{len2, smin, sqrt_spec, min_i};
use crate::vec::Vec2;
use crate::angle::Angle;
use crate::components::{Hitpoints, COMP_BOUND};
use crate::def::EntityDescriptor;
use crate::spawn::{ids_wf, inf_wf, screated, spawner, ssounds, Infrastructure};
use crate::world::{wf, wlen, slot_wf, World};

verus! {

/// The rounded-down distance between two points.
pub open spec fn sdist(p: Vec2, q: Vec2) -> int {
    sqrt_spec(len2(p.0 - q.0, p.1 - q.1) as nat) as int
}

/// Whether the ordered pair of distinct slots `(i, j)` collides: both live
/// bodies with health, of differing factions, closer than the sum of their
/// radii.
pub open spec fn colliding(w: World, i: int, j: int) -> bool {
    &&& 0 <= i < wlen(w)
    &&& 0 <= j < wlen(w)
    &&& i != j
    &&& w.alive@[i] && w.alive@[j]
    &&& w.spatial@[i] is Some && w.bounding@[i] is Some && w.hitpoints@[i] is Some
    &&& w.spatial@[j] is Some && w.bounding@[j] is Some && w.hitpoints@[j] is Some
    &&& w.bounding@[i]->Some_0.faction != w.bounding@[j]->Some_0.faction
    &&& w.bounding@[i]->Some_0.radius + w.bounding@[j]->Some_0.radius > sdist(
        w.spatial@[i]->Some_0.position,
        w.spatial@[j]->Some_0.position,
    )
}

/// Every listed pair collides.
pub open spec fn pairs_sound(w: World, ps: Seq<(usize, usize)>) -> bool {
    forall|k: int| 0 <= k < ps.len() ==> colliding(w, (#[trigger] ps[k]).0 as int, ps[k].1 as int)
}

/// Every colliding pair is listed.
pub open spec fn pairs_complete(w: World, ps: Seq<(usize, usize)>) -> bool {
    forall|i: int, j: int|
        #![trigger colliding(w, i, j)]
        colliding(w, i, j) ==> exists|k: int|
            0 <= k < ps.len() && ps[k] == (i as usize, j as usize)
}

/// The list is strictly ordered by row, then column, so no pair appears
/// twice.
pub open spec fn pairs_lex(ps: Seq<(usize, usize)>) -> bool {
    forall|k1: int, k2: int|
        0 <= k1 < k2 < ps.len() ==> ((#[trigger] ps[k1]).0 < (#[trigger] ps[k2]).0 || (ps[k1].0
            == ps[k2].0 && ps[k1].1 < ps[k2].1))
}

/// The health stores after resolving the first `n` collected pairs: for
/// each pair in order, the lesser of the two current values is subtracted
/// from both.
pub open spec fn sresolve_hp(
    hp: Seq<Option<Hitpoints>>,
    ps: Seq<(usize, usize)>,
    n: int,
) -> Seq<Option<Hitpoints>>
    decreases n,
{
    if n <= 0 {
        hp
    } else {
        let prev = sresolve_hp(hp, ps, n - 1);
        let a = ps[n - 1].0 as int;
        let b = ps[n - 1].1 as int;
        let ha = (prev[a]->Some_0).0 as int;
        let hb = (prev[b]->Some_0).0 as int;
        let d = smin(ha, hb);
        prev.update(a, Some(Hitpoints((ha - d) as i64))).update(b, Some(Hitpoints((hb - d) as i64)))
    }
}

/// Whether resolving the `n`-th pair destroys side `s` of it: its health is
/// positive before and not after the mutual subtraction.
pub open spec fn destroys(hp: Seq<Option<Hitpoints>>, ps: Seq<(usize, usize)>, n: int, s: int) -> bool {
    let prev = sresolve_hp(hp, ps, n);
    let a = ps[n].0 as int;
    let b = ps[n].1 as int;
    let ha = (prev[a]->Some_0).0 as int;
    let hb = (prev[b]->Some_0).0 as int;
    let d = smin(ha, hb);
    let hs = (prev[s]->Some_0).0 as int;
    hs > 0 && hs - d <= 0
}

/// The bundles the destruction trigger of slot `s` materializes.
pub open spec fn sexplosion_creates(w: World, inf: Infrastructure, s: int, age: int) -> Seq<
    EntityDescriptor,
> {
    let ds = inf.spawner.at(w.explodes@[s]->Some_0.spawner.0 as int).entities@;
    screated(
        inf,
        ds,
        ds.len() as int,
        age,
        Angle(0),
        Some(w.spatial@[s]->Some_0.position),
        None,
        None,
    )
}

/// The sound cues the destruction trigger of slot `s` requests.
pub open spec fn sexplosion_sounds(w: World, inf: Infrastructure, s: int) -> Seq<String> {
    let ds = inf.spawner.at(w.explodes@[s]->Some_0.spawner.0 as int).entities@;
    ssounds(ds, ds.len() as int)
}

/// The bundles queued while resolving the first `n` pairs: for each pair,
/// first the destroyed first side's trigger if any, then the second's.
pub open spec fn sresolve_creates(
    w: World,
    inf: Infrastructure,
    ps: Seq<(usize, usize)>,
    n: int,
    age: int,
) -> Seq<EntityDescriptor>
    decreases n,
{
    if n <= 0 {
        Seq::empty()
    } else {
        let prev = sresolve_creates(w, inf, ps, n - 1, age);
        let a = ps[n - 1].0 as int;
        let b = ps[n - 1].1 as int;
        let ea: Seq<EntityDescriptor> = if destroys(w.hitpoints@, ps, n - 1, a)
            && w.explodes@[a] is Some {
            sexplosion_creates(w, inf, a, age)
        } else {
            Seq::empty()
        };
        let eb: Seq<EntityDescriptor> = if destroys(w.hitpoints@, ps, n - 1, b)
            && w.explodes@[b] is Some {
            sexplosion_creates(w, inf, b, age)
        } else {
            Seq::empty()
        };
        prev + ea + eb
    }
}

/// The sound cues requested while resolving the first `n` pairs.
pub open spec fn sresolve_sounds(
    w: World,
    inf: Infrastructure,
    ps: Seq<(usize, usize)>,
    n: int,
    age: int,
) -> Seq<String>
    decreases n,
{
    if n <= 0 {
        Seq::empty()
    } else {
        let prev = sresolve_sounds(w, inf, ps, n - 1, age);
        let a = ps[n - 1].0 as int;
        let b = ps[n - 1].1 as int;
        let ea: Seq<String> = if destroys(w.hitpoints@, ps, n - 1, a) && w.explodes@[a] is Some {
            sexplosion_sounds(w, inf, a)
        } else {
            Seq::empty()
        };
        let eb: Seq<String> = if destroys(w.hitpoints@, ps, n - 1, b) && w.explodes@[b] is Some {
            sexplosion_sounds(w, inf, b)
        } else {
            Seq::empty()
        };
        prev + ea + eb
    }
}

/// The collision and damage resolver.
pub struct Collider;

impl Collider {
    /// One collision pass: collects every ordered colliding pair, then
    /// applies mutual damage and queues destruction spawns from the
    /// collected list.  Only health, the creation queue and the sound
    /// requests change.
    pub fn run(&mut self, world: &mut World, inf: &Infrastructure, age: i64) -> (pairs: Vec<
        (usize, usize),
    >)
        requires
            wf(*old(world)),
            inf_wf(*inf),
            ids_wf(*old(world), *inf),
            0 <= age <= COMP_BOUND,
        ensures
            wf(*final(world)),
            ids_wf(*final(world), *inf),
            pairs_sound(*old(world), pairs@),
            pairs_complete(*old(world), pairs@),
            pairs_lex(pairs@),
            final(world).hitpoints@ == sresolve_hp(
                old(world).hitpoints@,
                pairs@,
                pairs@.len() as int,
            ),
            final(world).pending_creates@ == old(world).pending_creates@ + sresolve_creates(
                *old(world),
                *inf,
                pairs@,
                pairs@.len() as int,
                age as int,
            ),
            final(world).sounds@ == old(world).sounds@ + sresolve_sounds(
                *old(world),
                *inf,
                pairs@,
                pairs@.len() as int,
                age as int,
            ),
            final(world).pending_deletes@ == old(world).pending_deletes@,
            final(world).generations@ == old(world).generations@,
            final(world).alive@ == old(world).alive@,
            final(world).spatial@ == old(world).spatial@,
            final(world).inertial@ == old(world).inertial@,
            final(world).bounding@ == old(world).bounding@,
            final(world).lifetime@ == old(world).lifetime@,
            final(world).shooter@ == old(world).shooter@,
            final(world).explodes@ == old(world).explodes@,
            final(world).exploding@ == old(world).exploding@,
            final(world).powerup@ == old(world).powerup@,
            final(world).controlled@ == old(world).controlled@,
            final(world).computed@ == old(world).computed@,
            final(world).fading@ == old(world).fading@,
            final(world).visual@ == old(world).visual@,
    {
        let ghost w0 = *world;
        let n = world.alive.len();
        let mut pairs: Vec<(usize, usize)> = Vec::new();
        let mut i: usize = 0;
        while i < n
            invariant
                wf(*world),
                *world == w0,
                n == wlen(w0),
                i <= n,
                pairs_sound(w0, pairs@),
                pairs_lex(pairs@),
                forall|k: int| 0 <= k < pairs@.len() ==> (#[trigger] pairs@[k]).0 < i,
                forall|a: int, b: int|
                    #![trigger colliding(w0, a, b)]
                    colliding(w0, a, b) && a < i ==> exists|k: int|
                        0 <= k < pairs@.len() && pairs@[k] == (a as usize, b as usize),
            decreases n - i,
        {
            let mut j: usize = 0;
            while j < n
                invariant
                    wf(*world),
                    *world == w0,
                    n == wlen(w0),
                    i < n,
                    j <= n,
                    pairs_sound(w0, pairs@),
                    pairs_lex(pairs@),
                    forall|k: int|
                        0 <= k < pairs@.len() ==> (#[trigger] pairs@[k]).0 < i || (pairs@[k].0 == i
                            && pairs@[k].1 < j),
                    forall|a: int, b: int|
                        #![trigger colliding(w0, a, b)]
                        colliding(w0, a, b) && (a < i || (a == i && b < j)) ==> exists|k: int|
                            0 <= k < pairs@.len() && pairs@[k] == (a as usize, b as usize),
                decreases n - j,
            {
                let mut hit = false;
                if i != j && world.alive[i] && world.alive[j] {
                    if let Some(sa) = world.spatial[i] {
                        if let Some(ba) = world.bounding[i] {
                            if world.hitpoints[i].is_some() {
                                if let Some(sb) = world.spatial[j] {
                                    if let Some(bb) = world.bounding[j] {
                                        if world.hitpoints[j].is_some() {
                                            if ba.faction.0 != bb.faction.0 {
                                                proof {
                                                    assert(slot_wf(w0, i as int));
                                                    assert(slot_wf(w0, j as int));
                                                }
                                                let dist = sa.position.distance(sb.position);
                                                if ba.radius + bb.radius > dist {
                                                    hit = true;
                                                }
                                            }
                                        }
                                    }
                                }
                            }
                        }
                    }
                }
                proof {
                    assert(hit == colliding(w0, i as int, j as int));
                }
                let ghost pairs0 = pairs@;
                if hit {
                    pairs.push((i, j));
                }
                j = j + 1;
                proof {
                    assert forall|a: int, b: int|
                        colliding(w0, a, b) && (a < i || (a == i && b < j)) implies exists|k: int|
                        0 <= k < pairs@.len() && pairs@[k] == (a as usize, b as usize) by {
                        if a == i && b == j - 1 {
                            assert(hit);
                            assert(pairs@[pairs@.len() - 1] == (i, (j - 1) as usize));
                        } else {
                            let kk = choose|kk: int|
                                0 <= kk < pairs0.len() && pairs0[kk] == (a as usize, b as usize);
                            assert(pairs@[kk] == (a as usize, b as usize));
                        }
                    }
                }
            }
            i = i + 1;
        }
        proof {
            assert forall|a: int, b: int| colliding(w0, a, b) implies exists|k: int|
                0 <= k < pairs@.len() && pairs@[k] == (a as usize, b as usize) by {
                assert(a < n);
            }
        }
        let ghost ps = pairs@;
        let m = pairs.len();
        let mut k: usize = 0;
        while k < m
            invariant
                wf(*world),
                inf_wf(*inf),
                ids_wf(*world, *inf),
                0 <= age <= COMP_BOUND,
                n == wlen(w0),
                wlen(*world) == wlen(w0),
                m == ps.len(),
                k <= m,
                pairs@ == ps,
                wf(w0),
                pairs_sound(w0, ps),
                world.hitpoints@ == sresolve_hp(w0.hitpoints@, ps, k as int),
                world.hitpoints@.len() == w0.hitpoints@.len(),
                forall|t: int|
                    0 <= t < wlen(w0) ==> (#[trigger] world.hitpoints@[t] is Some
                        == w0.hitpoints@[t] is Some),
                world.pending_creates@ == w0.pending_creates@ + sresolve_creates(
                    w0,
                    *inf,
                    ps,
                    k as int,
                    age as int,
                ),
                world.sounds@ == w0.sounds@ + sresolve_sounds(w0, *inf, ps, k as int, age as int),
                world.pending_deletes@ == w0.pending_deletes@,
                world.generations@ == w0.generations@,
                world.alive@ == w0.alive@,
                world.spatial@ == w0.spatial@,
                world.inertial@ == w0.inertial@,
                world.bounding@ == w0.bounding@,
                world.lifetime@ == w0.lifetime@,
                world.shooter@ == w0.shooter@,
                world.explodes@ == w0.explodes@,
                world.exploding@ == w0.exploding@,
                world.powerup@ == w0.powerup@,
                world.controlled@ == w0.controlled@,
                world.computed@ == w0.computed@,
                world.fading@ == w0.fading@,
                world.visual@ == w0.visual@,
            decreases m - k,
        {
            let (a, b) = pairs[k];
            proof {
                assert(colliding(w0, a as int, b as int));
            }
            let ha = match world.hitpoints[a] {
                Some(h) => h.0,
                None => 0,
            };
            let hb = match world.hitpoints[b] {
                Some(h) => h.0,
                None => 0,
            };
            proof {
                lemma_resolve_hp_bounds(w0, ps, k as int);
            }
            let d = min_i(ha, hb);
            if ha > 0 && ha - d <= 0 {
                if let Some(ex) = world.explodes[a] {
                    let pos = match world.spatial[a] {
                        Some(s) => s.position,
                        None => Vec2(0, 0),
                    };
                    proof {
                        assert(slot_wf(w0, a as int));
                    }
                    spawner(world, inf, ex.spawner, Angle(0), Some(pos), None, None, age);
                }
            }
            if hb > 0 && hb - d <= 0 {
                if let Some(ex) = world.explodes[b] {
                    let pos = match world.spatial[b] {
                        Some(s) => s.position,
                        None => Vec2(0, 0),
                    };
                    proof {
                        assert(slot_wf(w0, b as int));
                    }
                    spawner(world, inf, ex.spawner, Angle(0), Some(pos), None, None, age);
                }
            }
            world.hitpoints.set(a, Some(Hitpoints(ha - d)));
            world.hitpoints.set(b, Some(Hitpoints(hb - d)));
            k = k + 1;
            proof {
                assert(world.hitpoints@ =~= sresolve_hp(w0.hitpoints@, ps, k as int));
                assert(world.pending_creates@ =~= w0.pending_creates@ + sresolve_creates(
                    w0,
                    *inf,
                    ps,
                    k as int,
                    age as int,
                ));
                assert(world.sounds@ =~= w0.sounds@ + sresolve_sounds(
                    w0,
                    *inf,
                    ps,
                    k as int,
                    age as int,
                ));
                assert forall|t: int| 0 <= t < wlen(w0) implies slot_wf(*world, t) by {
                    assert(slot_wf(w0, t));
                }
            }
        }
        pairs
    }
}

/// While resolving sound pairs, health values stay within `[0, COMP_BOUND]`
/// wherever they were within it before, and presence is unchanged.
pub proof fn lemma_resolve_hp_bounds(w0: World, ps: Seq<(usize, usize)>, n: int)
    requires
        wf(w0),
        pairs_sound(w0, ps),
        0 <= n <= ps.len(),
    ensures
        sresolve_hp(w0.hitpoints@, ps, n).len() == w0.hitpoints@.len(),
        forall|t: int|
            0 <= t < w0.hitpoints@.len() ==> (#[trigger] sresolve_hp(w0.hitpoints@, ps, n)[t] is Some
                == w0.hitpoints@[t] is Some),
        forall|t: int|
            0 <= t < w0.hitpoints@.len() && w0.hitpoints@[t] is Some ==> 0 <= ((#[trigger] sresolve_hp(
                w0.hitpoints@,
                ps,
                n,
            )[t])->Some_0).0 <= COMP_BOUND,
    decreases n,
{
    if n > 0 {
        lemma_resolve_hp_bounds(w0, ps, n - 1);
        assert(colliding(w0, ps[n - 1].0 as int, ps[n - 1].1 as int));
        let a = ps[n - 1].0 as int;
        let b = ps[n - 1].1 as int;
        assert(slot_wf(w0, a));
        assert(slot_wf(w0, b));
        let prev = sresolve_hp(w0.hitpoints@, ps, n - 1);
        let cur = sresolve_hp(w0.hitpoints@, ps, n);
        assert(0 <= (prev[a]->Some_0).0 <= COMP_BOUND);
        assert(0 <= (prev[b]->Some_0).0 <= COMP_BOUND);
        assert forall|t: int|
            0 <= t < w0.hitpoints@.len() && w0.hitpoints@[t] is Some implies 0 <= ((cur[t])->Some_0).0
            <= COMP_BOUND by {
            if t != a && t != b {
                assert(cur[t] == prev[t]);
            }
        }
    } else {
        assert forall|t: int|
            0 <= t < w0.hitpoints@.len() && w0.hitpoints@[t] is Some implies 0 <= ((sresolve_hp(
            w0.hitpoints@,
            ps,
            n,
        )[t])->Some_0).0 <= COMP_BOUND by {
            assert(slot_wf(w0, t));
        }
    }
}

} // verus!
