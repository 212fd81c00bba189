//! The ai system: authors motion intent and shot triggers for
//! game-controlled entities.
//!
//! Each ai actor picks a target — the player if one exists, else the last
//! ai peer — and steers toward an offset point to one side of it, choosing
//! the side nearer its current heading so the choice does not flip-flop.
//! Shots are aimed along the direct vector to the target, compensating for
//! the lateral offset, whenever the cooldown elapses.

use vstd::prelude::*;
use crate::fx::{sclamp, smin, clamp_i, FX_BOUND};
use crate::vec::{snormalize_to, vfits, Vec2};
use crate::angle::{satan2, snorm, Angle};
use crate::components::{cfits, Inertial, Periodic, Shooter, COMP_BOUND};
use crate::def::EntityDescriptor;
use crate::spawn::{ids_wf, inf_wf, screated, spawner, ssounds, Infrastructure};
use crate::world::{wf, wlen, slot_wf, World};

verus! {

/// The position of the last live player-controlled entity with the primary
/// input mapping among the first `n` slots, if any.
pub open spec fn splayer(w: World, n: int) -> Option<Vec2>
    decreases n,
{
    if n <= 0 {
        None
    } else if w.alive@[n - 1] && w.controlled@[n - 1] is Some && w.spatial@[n - 1] is Some
        && w.controlled@[n - 1]->Some_0.input_id == 1 {
        Some(w.spatial@[n - 1]->Some_0.position)
    } else {
        splayer(w, n - 1)
    }
}

/// The position of the last live ai peer among the first `n` slots, if any.
pub open spec fn speer(w: World, n: int) -> Option<Vec2>
    decreases n,
{
    if n <= 0 {
        None
    } else if w.alive@[n - 1] && w.computed@[n - 1] is Some && w.spatial@[n - 1] is Some {
        Some(w.spatial@[n - 1]->Some_0.position)
    } else {
        speer(w, n - 1)
    }
}

/// The target the ai aims for: the player, or failing that any ai peer.
pub open spec fn starget(w: World) -> Option<Vec2> {
    match splayer(w, wlen(w)) {
        Some(p) => Some(p),
        None => speer(w, wlen(w)),
    }
}

/// Whether slot `i` is an ai actor: live, with ai marker, position, motion
/// state, shooter and body.
pub open spec fn comp_actor(w: World, i: int) -> bool {
    &&& 0 <= i < wlen(w)
    &&& w.alive@[i]
    &&& w.computed@[i] is Some
    &&& w.spatial@[i] is Some
    &&& w.inertial@[i] is Some
    &&& w.shooter@[i] is Some
    &&& w.bounding@[i] is Some
}

/// The sideways normal of the vector to the target that lies nearer the
/// current heading: the right normal if the heading does not oppose it, the
/// left normal otherwise.
pub open spec fn sside(to_target: Vec2, heading: Vec2) -> Vec2 {
    let right = Vec2(to_target.1, (-to_target.0) as i64);
    let left = Vec2((-to_target.1) as i64, to_target.0);
    if heading.0 * right.0 + heading.1 * right.1 >= 0 {
        right
    } else {
        left
    }
}

/// The desired fraction an ai actor authors: the unit vector toward the
/// offset point beside its target.
pub open spec fn sai_fraction(pos: Vec2, target: Vec2, heading: Vec2) -> Vec2 {
    let to_t = Vec2((target.0 - pos.0) as i64, (target.1 - pos.1) as i64);
    let offset = snormalize_to(sside(to_t, heading), 1_000_000);
    let aim = Vec2(
        sclamp(to_t.0 + offset.0, -FX_BOUND as int, FX_BOUND as int) as i64,
        sclamp(to_t.1 + offset.1, -FX_BOUND as int, FX_BOUND as int) as i64,
    );
    snormalize_to(aim, 1000)
}

/// The angle an ai actor fires along: its facing corrected by the angle
/// between its movement direction and the direct vector to the target.
pub open spec fn sai_fire_angle(s: crate::components::Spatial, pos: Vec2, target: Vec2, fraction: Vec2) -> int {
    let to_t = Vec2((target.0 - pos.0) as i64, (target.1 - pos.1) as i64);
    let a1 = satan2(to_t.1 as int, to_t.0 as int);
    let a2 = satan2(fraction.1 as int, fraction.0 as int);
    snorm(s.angle.0 - (a2 - a1))
}

/// Whether the shooter's cooldown has elapsed at `age`.
pub open spec fn sai_fires(sh: Shooter, age: int) -> bool {
    sh.interval.next <= age
}

/// The shooter after the frame, its cooldown advanced if it elapsed.
pub open spec fn sai_shooter(sh: Shooter, age: int) -> Shooter {
    if sh.interval.next <= age {
        Shooter {
            interval: Periodic {
                interval: sh.interval.interval,
                next: (age + sh.interval.interval - smin(
                    age - sh.interval.next,
                    sh.interval.interval as int,
                )) as i64,
            },
            ..sh
        }
    } else {
        sh
    }
}

/// The projectile bundles queued over the first `n` slots, in order.
pub open spec fn sai_creates(
    w: World,
    inf: Infrastructure,
    target: Vec2,
    age: int,
    n: int,
) -> Seq<EntityDescriptor>
    decreases n,
{
    if n <= 0 {
        Seq::empty()
    } else {
        let prev = sai_creates(w, inf, target, age, n - 1);
        let i = n - 1;
        if comp_actor(w, i) && sai_fires(w.shooter@[i]->Some_0, age) {
            let sp = w.spatial@[i]->Some_0;
            let ine = w.inertial@[i]->Some_0;
            let fr = sai_fraction(sp.position, target, ine.v_fraction);
            let fire = Angle(sai_fire_angle(sp, sp.position, target, fr) as i64);
            let ds = inf.spawner.at(w.shooter@[i]->Some_0.spawner.0 as int).entities@;
            prev + screated(
                inf,
                ds,
                ds.len() as int,
                age,
                fire,
                Some(sp.position),
                Some(fire),
                Some(w.bounding@[i]->Some_0.faction),
            )
        } else {
            prev
        }
    }
}

/// The sound cues requested over the first `n` slots.
pub open spec fn sai_sounds(
    w: World,
    inf: Infrastructure,
    age: int,
    n: int,
) -> Seq<String>
    decreases n,
{
    if n <= 0 {
        Seq::empty()
    } else {
        let prev = sai_sounds(w, inf, age, n - 1);
        let i = n - 1;
        if comp_actor(w, i) && sai_fires(w.shooter@[i]->Some_0, age) {
            let ds = inf.spawner.at(w.shooter@[i]->Some_0.spawner.0 as int).entities@;
            prev + ssounds(ds, ds.len() as int)
        } else {
            prev
        }
    }
}

/// The side selection never opposes the heading: of the two sideways
/// normals, the chosen one has a non-negative projection onto the current
/// heading, so the offset point lies on the side the heading leans to.
pub proof fn lemma_side_near_heading(to_target: Vec2, heading: Vec2)
    requires
        vfits(to_target),
    ensures
        heading.0 * sside(to_target, heading).0 + heading.1 * sside(to_target, heading).1 >= 0,
{
    let right = Vec2(to_target.1, (-to_target.0) as i64);
    let left = Vec2((-to_target.1) as i64, to_target.0);
    assert(heading.0 * left.0 + heading.1 * left.1 == -(heading.0 * right.0 + heading.1
        * right.1)) by (nonlinear_arith)
        requires
            left.0 == -right.0,
            left.1 == -right.1,
    ;
}

/// The offset side beside the target nearer the current heading.
pub fn offset_side(to_target: Vec2, heading: Vec2) -> (r: Vec2)
    requires
        vfits(to_target),
        vfits(heading),
    ensures
        r == sside(to_target, heading),
        heading.0 * r.0 + heading.1 * r.1 >= 0,
{
    proof {
        lemma_side_near_heading(to_target, heading);
    }
    let right = to_target.right();
    let left = to_target.left();
    let d = heading.dot(right);
    if d >= 0 {
        right
    } else {
        left
    }
}

/// The ai system.
pub struct Compute;

impl Compute {
    /// Finds the target position: the player if one exists, else any ai
    /// peer.
    fn find_target(world: &World) -> (r: Option<Vec2>)
        requires
            wf(*world),
        ensures
            r == starget(*world),
    {
        let n = world.alive.len();
        let mut found: Option<Vec2> = None;
        let mut i: usize = 0;
        while i < n
            invariant
                wf(*world),
                n == wlen(*world),
                i <= n,
                found == splayer(*world, i as int),
            decreases n - i,
        {
            if world.alive[i] && world.controlled[i].is_some() && world.spatial[i].is_some() {
                let c = match world.controlled[i] {
                    Some(c) => c,
                    None => {
                        proof {
                            assert(false);
                        }
                        return None;
                    },
                };
                if c.input_id == 1 {
                    let sp = match world.spatial[i] {
                        Some(s) => s,
                        None => {
                            proof {
                                assert(false);
                            }
                            return None;
                        },
                    };
                    found = Some(sp.position);
                }
            }
            i = i + 1;
            proof {
                if !(world.alive@[i - 1] && world.controlled@[i - 1] is Some && world.spatial@[i
                    - 1] is Some && world.controlled@[i - 1]->Some_0.input_id == 1) {
                    assert(splayer(*world, i as int) == splayer(*world, i - 1));
                }
            }
        }
        if found.is_some() {
            return found;
        }
        let mut peer: Option<Vec2> = None;
        let mut i: usize = 0;
        while i < n
            invariant
                wf(*world),
                n == wlen(*world),
                i <= n,
                peer == speer(*world, i as int),
            decreases n - i,
        {
            if world.alive[i] && world.computed[i].is_some() && world.spatial[i].is_some() {
                let sp = match world.spatial[i] {
                    Some(s) => s,
                    None => {
                        proof {
                            assert(false);
                        }
                        return None;
                    },
                };
                peer = Some(sp.position);
            }
            i = i + 1;
        }
        peer
    }

    /// One ai pass: every ai actor steers toward the offset point beside
    /// the target and fires — aimed at the target — once per elapsed
    /// cooldown.  With no target anywhere, nothing changes.  Only motion
    /// intent, shooters, the creation queue and the sound requests change.
    #[verifier::rlimit(100)]
    pub fn run(&mut self, world: &mut World, inf: &Infrastructure, age: i64)
        requires
            wf(*old(world)),
            inf_wf(*inf),
            ids_wf(*old(world), *inf),
            0 <= age <= COMP_BOUND,
        ensures
            wf(*final(world)),
            ids_wf(*final(world), *inf),
            starget(*old(world)) is None ==> *final(world) == *old(world),
            starget(*old(world)) is Some ==> {
                let target = starget(*old(world))->Some_0;
                &&& forall|i: int|
                    #![trigger final(world).inertial@[i]]
                    0 <= i < wlen(*old(world)) && comp_actor(*old(world), i) ==> final(world).inertial@[i] == Some(
                        Inertial {
                            v_fraction: sai_fraction(
                                old(world).spatial@[i]->Some_0.position,
                                target,
                                old(world).inertial@[i]->Some_0.v_fraction,
                            ),
                            ..old(world).inertial@[i]->Some_0
                        },
                    ) && final(world).shooter@[i] == Some(
                        sai_shooter(old(world).shooter@[i]->Some_0, age as int),
                    )
                &&& forall|i: int|
                    #![trigger final(world).inertial@[i]]
                    0 <= i < wlen(*old(world)) && !comp_actor(*old(world), i) ==> final(world).inertial@[i] == old(world).inertial@[i] && final(world).shooter@[i] == old(world).shooter@[i]
                &&& final(world).pending_creates@ == old(world).pending_creates@ + sai_creates(
                    *old(world),
                    *inf,
                    target,
                    age as int,
                    wlen(*old(world)),
                )
                &&& final(world).sounds@ == old(world).sounds@ + sai_sounds(
                    *old(world),
                    *inf,
                    age as int,
                    wlen(*old(world)),
                )
            },
            final(world).pending_deletes@ == old(world).pending_deletes@,
            final(world).generations@ == old(world).generations@,
            final(world).alive@ == old(world).alive@,
            final(world).spatial@ == old(world).spatial@,
            final(world).bounding@ == old(world).bounding@,
            final(world).hitpoints@ == old(world).hitpoints@,
            final(world).lifetime@ == old(world).lifetime@,
            final(world).explodes@ == old(world).explodes@,
            final(world).exploding@ == old(world).exploding@,
            final(world).powerup@ == old(world).powerup@,
            final(world).controlled@ == old(world).controlled@,
            final(world).computed@ == old(world).computed@,
            final(world).fading@ == old(world).fading@,
            final(world).visual@ == old(world).visual@,
    {
        let ghost w0 = *world;
        let target_opt = Self::find_target(world);
        let target = match target_opt {
            Some(t) => t,
            None => {
                return ;
            },
        };
        let n = world.alive.len();
        let mut i: usize = 0;
        while i < n
            invariant
                wf(*world),
                wf(w0),
                inf_wf(*inf),
                ids_wf(*world, *inf),
                0 <= age <= COMP_BOUND,
                n == wlen(w0),
                wlen(*world) == wlen(w0),
                i <= n,
                Some(target) == starget(w0),
                forall|t: int|
                    #![trigger world.inertial@[t]]
                    0 <= t < i && comp_actor(w0, t) ==> world.inertial@[t] == Some(
                        Inertial {
                            v_fraction: sai_fraction(
                                w0.spatial@[t]->Some_0.position,
                                target,
                                w0.inertial@[t]->Some_0.v_fraction,
                            ),
                            ..w0.inertial@[t]->Some_0
                        },
                    ) && world.shooter@[t] == Some(
                        sai_shooter(w0.shooter@[t]->Some_0, age as int),
                    ),
                forall|t: int|
                    #![trigger world.inertial@[t]]
                    0 <= t < i && !comp_actor(w0, t) ==> world.inertial@[t] == w0.inertial@[t]
                        && world.shooter@[t] == w0.shooter@[t],
                forall|t: int|
                    i <= t < n ==> world.inertial@[t] == w0.inertial@[t] && world.shooter@[t]
                        == w0.shooter@[t],
                world.pending_creates@ == w0.pending_creates@ + sai_creates(
                    w0,
                    *inf,
                    target,
                    age as int,
                    i as int,
                ),
                world.sounds@ == w0.sounds@ + sai_sounds(w0, *inf, age as int, i as int),
                world.pending_deletes@ == w0.pending_deletes@,
                world.generations@ == w0.generations@,
                world.alive@ == w0.alive@,
                world.spatial@ == w0.spatial@,
                world.bounding@ == w0.bounding@,
                world.hitpoints@ == w0.hitpoints@,
                world.lifetime@ == w0.lifetime@,
                world.explodes@ == w0.explodes@,
                world.exploding@ == w0.exploding@,
                world.powerup@ == w0.powerup@,
                world.controlled@ == w0.controlled@,
                world.computed@ == w0.computed@,
                world.fading@ == w0.fading@,
                world.visual@ == w0.visual@,
            decreases n - i,
        {
            let ghost entry = *world;
            let mut is_actor = false;
            if world.alive[i] {
                if world.computed[i].is_some() && world.spatial[i].is_some()
                    && world.inertial[i].is_some() && world.shooter[i].is_some()
                    && world.bounding[i].is_some() {
                    is_actor = true;
                }
            }
            proof {
                assert(is_actor == comp_actor(w0, i as int));
            }
            if is_actor {
                let sp = match world.spatial[i] {
                    Some(v) => v,
                    None => {
                        proof {
                            assert(false);
                        }
                        return ;
                    },
                };
                let ine = match world.inertial[i] {
                    Some(v) => v,
                    None => {
                        proof {
                            assert(false);
                        }
                        return ;
                    },
                };
                let bnd = match world.bounding[i] {
                    Some(v) => v,
                    None => {
                        proof {
                            assert(false);
                        }
                        return ;
                    },
                };
                let mut sh = match world.shooter[i] {
                    Some(v) => v,
                    None => {
                        proof {
                            assert(false);
                        }
                        return ;
                    },
                };
                proof {
                    assert(slot_wf(w0, i as int));
                    lemma_target_cfits(w0);
                }
                let to_t = Vec2(target.0 - sp.position.0, target.1 - sp.position.1);
                let side = offset_side(to_t, ine.v_fraction);
                let offset = side.normalize_to(1_000_000);
                let aim = Vec2(
                    clamp_i(to_t.0 + offset.0, -FX_BOUND, FX_BOUND),
                    clamp_i(to_t.1 + offset.1, -FX_BOUND, FX_BOUND),
                );
                let fraction = aim.normalize_to(1000);
                let mut upd = ine;
                upd.v_fraction = fraction;
                world.inertial.set(i, Some(upd));
                let fired = sh.interval.elapsed(age);
                world.shooter.set(i, Some(sh));
                let ghost pre = entry;
                proof {
                    assert forall|t: int| 0 <= t < wlen(*world) implies slot_wf(*world, t) by {
                        assert(slot_wf(pre, t));
                    }
                    assert forall|jj: int|
                        0 <= jj < world.pending_creates@.len() implies crate::spawn::bundle_ids_ok(
                        #[trigger] world.pending_creates@[jj],
                        *inf,
                    ) by {
                        assert(crate::spawn::bundle_ids_ok(pre.pending_creates@[jj], *inf));
                    }
                    assert forall|t: int|
                        0 <= t < wlen(*world) && world.alive@[t]
                            && #[trigger] world.shooter@[t] is Some implies
                        world.shooter@[t]->Some_0.spawner.0 < inf.spawner.len() by {
                        assert(pre.alive@[t] && pre.shooter@[t] is Some
                            ==> pre.shooter@[t]->Some_0.spawner.0 < inf.spawner.len());
                    }
                }
                if fired {
                    let a1 = Angle::from_vec(to_t);
                    let a2 = Angle::from_vec(fraction);
                    let fire = Angle(sp.angle.0 - (a2.0 - a1.0)).normalize();
                    proof {
                        assert(fire.0 as int == sai_fire_angle(
                            sp,
                            sp.position,
                            target,
                            fraction,
                        ));
                    }
                    spawner(
                        world,
                        inf,
                        sh.spawner,
                        fire,
                        Some(sp.position),
                        Some(fire),
                        Some(bnd.faction),
                        age,
                    );
                }
            }
            proof {
                if is_actor {
                    let t = i as int;
                    assert(world.inertial@[t] == Some(
                        Inertial {
                            v_fraction: sai_fraction(
                                w0.spatial@[t]->Some_0.position,
                                target,
                                w0.inertial@[t]->Some_0.v_fraction,
                            ),
                            ..w0.inertial@[t]->Some_0
                        },
                    ));
                    assert(world.shooter@[t] == Some(
                        sai_shooter(w0.shooter@[t]->Some_0, age as int),
                    ));
                }
            }
            i = i + 1;
            proof {
                assert forall|t: int|
                    #![trigger world.inertial@[t]]
                    0 <= t < i && comp_actor(w0, t) implies world.inertial@[t] == Some(
                    Inertial {
                        v_fraction: sai_fraction(
                            w0.spatial@[t]->Some_0.position,
                            target,
                            w0.inertial@[t]->Some_0.v_fraction,
                        ),
                        ..w0.inertial@[t]->Some_0
                    },
                ) && world.shooter@[t] == Some(
                    sai_shooter(w0.shooter@[t]->Some_0, age as int),
                ) by {
                    if t < i - 1 {
                        assert(world.inertial@[t] == entry.inertial@[t]);
                        assert(world.shooter@[t] == entry.shooter@[t]);
                    }
                }
                assert forall|t: int|
                    #![trigger world.inertial@[t]]
                    0 <= t < i && !comp_actor(w0, t) implies world.inertial@[t]
                    == w0.inertial@[t] && world.shooter@[t] == w0.shooter@[t] by {
                    if t < i - 1 {
                        assert(world.inertial@[t] == entry.inertial@[t]);
                        assert(world.shooter@[t] == entry.shooter@[t]);
                    }
                }
                assert(world.pending_creates@ =~= w0.pending_creates@ + sai_creates(
                    w0,
                    *inf,
                    target,
                    age as int,
                    i as int,
                ));
                assert(world.sounds@ =~= w0.sounds@ + sai_sounds(w0, *inf, age as int, i as int));
            }
        }
    }
}

/// The target, when there is one, is a stored position, hence in range.
proof fn lemma_target_cfits(w: World)
    requires
        wf(w),
        starget(w) is Some,
    ensures
        cfits((starget(w)->Some_0).0 as int),
        cfits((starget(w)->Some_0).1 as int),
{
    lemma_splayer_cfits(w, wlen(w));
    lemma_speer_cfits(w, wlen(w));
}

/// A player position found among the first `n` slots is in range.
proof fn lemma_splayer_cfits(w: World, n: int)
    requires
        wf(w),
        n <= wlen(w),
    ensures
        splayer(w, n) is Some ==> cfits((splayer(w, n)->Some_0).0 as int) && cfits(
            (splayer(w, n)->Some_0).1 as int,
        ),
    decreases n,
{
    if n > 0 {
        lemma_splayer_cfits(w, n - 1);
        if w.alive@[n - 1] && w.controlled@[n - 1] is Some && w.spatial@[n - 1] is Some
            && w.controlled@[n - 1]->Some_0.input_id == 1 {
            assert(crate::world::slot_wf(w, n - 1));
        }
    }
}

/// An ai peer position found among the first `n` slots is in range.
proof fn lemma_speer_cfits(w: World, n: int)
    requires
        wf(w),
        n <= wlen(w),
    ensures
        speer(w, n) is Some ==> cfits((speer(w, n)->Some_0).0 as int) && cfits(
            (speer(w, n)->Some_0).1 as int,
        ),
    decreases n,
{
    if n > 0 {
        lemma_speer_cfits(w, n - 1);
        if w.alive@[n - 1] && w.computed@[n - 1] is Some && w.spatial@[n - 1] is Some {
            assert(crate::world::slot_wf(w, n - 1));
        }
    }
}

} // verus!
