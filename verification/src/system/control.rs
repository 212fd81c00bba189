//! The control system: turns device input into motion intent and shot
//! triggers for player-controlled entities.
//!
//! The caller polls the devices and hands in one plain sample per input
//! mapping; the system only authors intent — the desired fraction and the
//! motion mode — and fires the entity's shooter when the fire input is held
//! and the cooldown has elapsed.  It never moves entities.

use vstd::prelude::*;
use crate::fx::{sclamp, smin, clamp_i};
use crate::vec::Vec2;
use crate::angle::Angle;
use crate::components::{Inertial, InertialMotionType, Periodic, Shooter, COMP_BOUND};
use crate::def::EntityDescriptor;
use crate::spawn::{ids_wf, inf_wf, screated, spawner, ssounds, Infrastructure};
use crate::world::{wf, wlen, slot_wf, World};

verus! {

/// One frame of device input for one input mapping: a combined movement
/// axis and the held buttons.
#[derive(Clone, Copy, Debug, PartialEq, Eq, Structural)]
pub struct InputSample {
    /// The input mapping this sample belongs to.
    pub input_id: u32,
    /// Desired movement fraction, in milli.
    pub v_fraction: Vec2,
    /// Whether a fire input is held.
    pub shoot: bool,
    /// Whether the strafe modifier is held.
    pub strafe: bool,
    /// Whether the rotate modifier is held.
    pub rotate: bool,
}

/// The neutral sample: no movement, nothing held.
pub open spec fn neutral_sample(id: u32) -> InputSample {
    InputSample { input_id: id, v_fraction: Vec2(0, 0), shoot: false, strafe: false, rotate: false }
}

/// The first sample for the given mapping, if input is taken; the neutral
/// sample otherwise.
pub open spec fn sfind_sample(inputs: Seq<InputSample>, id: u32, take: bool, n: int) -> InputSample
    decreases n,
{
    if !take || n <= 0 {
        neutral_sample(id)
    } else {
        let prev = sfind_sample(inputs, id, take, n - 1);
        if prev != neutral_sample(id) {
            prev
        } else if inputs[n - 1].input_id == id && inputs[n - 1] != neutral_sample(id) {
            inputs[n - 1]
        } else {
            neutral_sample(id)
        }
    }
}

/// Whether slot `i` is a player-controlled actor: live, with control
/// marker, position, motion state, shooter and body.
pub open spec fn ctrl_actor(w: World, i: int) -> bool {
    &&& 0 <= i < wlen(w)
    &&& w.alive@[i]
    &&& w.controlled@[i] is Some
    &&& w.spatial@[i] is Some
    &&& w.inertial@[i] is Some
    &&& w.shooter@[i] is Some
    &&& w.bounding@[i] is Some
}

/// The motion intent a sample authors: the desired fraction, clamped to its
/// stated range, and the mode selected by the held modifiers.
pub open spec fn scontrol_inertial(i: Inertial, s: InputSample) -> Inertial {
    Inertial {
        v_fraction: Vec2(
            sclamp(s.v_fraction.0 as int, -1000, 1000) as i64,
            sclamp(s.v_fraction.1 as int, -1000, 1000) as i64,
        ),
        motion_type: if s.strafe {
            InertialMotionType::StrafeVector
        } else if s.rotate {
            InertialMotionType::Detached
        } else {
            InertialMotionType::FollowVector
        },
        ..i
    }
}

/// Whether the shooter fires this frame: the fire input is held and the
/// cooldown has elapsed.
pub open spec fn sfires(sh: Shooter, s: InputSample, age: int) -> bool {
    s.shoot && sh.interval.next <= age
}

/// The shooter after the frame: its cooldown advanced if the fire input was
/// held.
pub open spec fn scontrol_shooter(sh: Shooter, s: InputSample, age: int) -> Shooter {
    if s.shoot && sh.interval.next <= age {
        Shooter {
            interval: Periodic {
                interval: sh.interval.interval,
                next: (age + sh.interval.interval - smin(
                    age - sh.interval.next,
                    sh.interval.interval as int,
                )) as i64,
            },
            ..sh
        }
    } else {
        sh
    }
}

/// The sample slot `i` sees this frame.
pub open spec fn sample_for(w: World, inputs: Seq<InputSample>, take: bool, i: int) -> InputSample {
    sfind_sample(inputs, w.controlled@[i]->Some_0.input_id, take, inputs.len() as int)
}

/// The projectile bundles queued over the first `n` slots, in order: one
/// volley per firing actor, fired along its facing at its position with its
/// faction.
pub open spec fn scontrol_creates(
    w: World,
    inf: Infrastructure,
    inputs: Seq<InputSample>,
    take: bool,
    age: int,
    n: int,
) -> Seq<EntityDescriptor>
    decreases n,
{
    if n <= 0 {
        Seq::empty()
    } else {
        let prev = scontrol_creates(w, inf, inputs, take, age, n - 1);
        let i = n - 1;
        if ctrl_actor(w, i) && sfires(
            w.shooter@[i]->Some_0,
            sample_for(w, inputs, take, i),
            age,
        ) {
            let sh = w.shooter@[i]->Some_0;
            let sp = w.spatial@[i]->Some_0;
            let ds = inf.spawner.at(sh.spawner.0 as int).entities@;
            prev + screated(
                inf,
                ds,
                ds.len() as int,
                age,
                sp.angle,
                Some(sp.position),
                Some(sp.angle),
                Some(w.bounding@[i]->Some_0.faction),
            )
        } else {
            prev
        }
    }
}

/// The sound cues requested over the first `n` slots.
pub open spec fn scontrol_sounds(
    w: World,
    inf: Infrastructure,
    inputs: Seq<InputSample>,
    take: bool,
    age: int,
    n: int,
) -> Seq<String>
    decreases n,
{
    if n <= 0 {
        Seq::empty()
    } else {
        let prev = scontrol_sounds(w, inf, inputs, take, age, n - 1);
        let i = n - 1;
        if ctrl_actor(w, i) && sfires(
            w.shooter@[i]->Some_0,
            sample_for(w, inputs, take, i),
            age,
        ) {
            let sh = w.shooter@[i]->Some_0;
            let ds = inf.spawner.at(sh.spawner.0 as int).entities@;
            prev + ssounds(ds, ds.len() as int)
        } else {
            prev
        }
    }
}

/// The control system.
pub struct Control {
}

impl Control {
    /// A new control system.
    pub fn new() -> (r: Control) {
        Control {  }
    }

    /// Finds the sample for an input mapping: the first matching,
    /// non-neutral entry, or the neutral sample when input is not taken.
    fn find_sample(inputs: &Vec<InputSample>, id: u32, take: bool) -> (r: InputSample)
        ensures
            r == sfind_sample(inputs@, id, take, inputs@.len() as int),
    {
        if !take {
            return InputSample {
                input_id: id,
                v_fraction: Vec2(0, 0),
                shoot: false,
                strafe: false,
                rotate: false,
            };
        }
        let neutral = InputSample {
            input_id: id,
            v_fraction: Vec2(0, 0),
            shoot: false,
            strafe: false,
            rotate: false,
        };
        let n = inputs.len();
        let mut k: usize = 0;
        let mut found = neutral;
        while k < n
            invariant
                n == inputs@.len(),
                k <= n,
                take,
                neutral == neutral_sample(id),
                found == sfind_sample(inputs@, id, take, k as int),
            decreases n - k,
        {
            if found == neutral {
                let s = inputs[k];
                if s.input_id == id {
                    found = s;
                }
            }
            k = k + 1;
        }
        found
    }

    /// One control pass: every player-controlled actor's motion intent is
    /// set from its input sample, and its shooter fires — once per elapsed
    /// cooldown — while the fire input is held.  Only motion intent,
    /// shooters, the creation queue and the sound requests change.
    pub fn run(
        &mut self,
        world: &mut World,
        inf: &Infrastructure,
        inputs: &Vec<InputSample>,
        take_input: bool,
        age: i64,
    )
        requires
            wf(*old(world)),
            inf_wf(*inf),
            ids_wf(*old(world), *inf),
            0 <= age <= COMP_BOUND,
        ensures
            wf(*final(world)),
            ids_wf(*final(world), *inf),
            forall|i: int|
                #![trigger final(world).inertial@[i]]
                0 <= i < wlen(*old(world)) && ctrl_actor(*old(world), i) ==> final(world).inertial@[i] == Some(
                    scontrol_inertial(
                        old(world).inertial@[i]->Some_0,
                        sample_for(*old(world), inputs@, take_input, i),
                    ),
                ) && final(world).shooter@[i] == Some(
                    scontrol_shooter(
                        old(world).shooter@[i]->Some_0,
                        sample_for(*old(world), inputs@, take_input, i),
                        age as int,
                    ),
                ),
            forall|i: int|
                #![trigger final(world).inertial@[i]]
                0 <= i < wlen(*old(world)) && !ctrl_actor(*old(world), i) ==> final(world).inertial@[i] == old(world).inertial@[i] && final(world).shooter@[i] == old(world).shooter@[i],
            final(world).pending_creates@ == old(world).pending_creates@ + scontrol_creates(
                *old(world),
                *inf,
                inputs@,
                take_input,
                age as int,
                wlen(*old(world)),
            ),
            final(world).sounds@ == old(world).sounds@ + scontrol_sounds(
                *old(world),
                *inf,
                inputs@,
                take_input,
                age as int,
                wlen(*old(world)),
            ),
            final(world).pending_deletes@ == old(world).pending_deletes@,
            final(world).generations@ == old(world).generations@,
            final(world).alive@ == old(world).alive@,
            final(world).spatial@ == old(world).spatial@,
            final(world).bounding@ == old(world).bounding@,
            final(world).hitpoints@ == old(world).hitpoints@,
            final(world).lifetime@ == old(world).lifetime@,
            final(world).explodes@ == old(world).explodes@,
            final(world).exploding@ == old(world).exploding@,
            final(world).powerup@ == old(world).powerup@,
            final(world).controlled@ == old(world).controlled@,
            final(world).computed@ == old(world).computed@,
            final(world).fading@ == old(world).fading@,
            final(world).visual@ == old(world).visual@,
    {
        let ghost w0 = *world;
        let n = world.alive.len();
        let mut i: usize = 0;
        while i < n
            invariant
                wf(*world),
                wf(w0),
                inf_wf(*inf),
                ids_wf(*world, *inf),
                0 <= age <= COMP_BOUND,
                n == wlen(w0),
                wlen(*world) == wlen(w0),
                i <= n,
                forall|t: int|
                    #![trigger world.inertial@[t]]
                    0 <= t < i && ctrl_actor(w0, t) ==> world.inertial@[t] == Some(
                        scontrol_inertial(
                            w0.inertial@[t]->Some_0,
                            sample_for(w0, inputs@, take_input, t),
                        ),
                    ) && world.shooter@[t] == Some(
                        scontrol_shooter(
                            w0.shooter@[t]->Some_0,
                            sample_for(w0, inputs@, take_input, t),
                            age as int,
                        ),
                    ),
                forall|t: int|
                    #![trigger world.inertial@[t]]
                    0 <= t < i && !ctrl_actor(w0, t) ==> world.inertial@[t] == w0.inertial@[t]
                        && world.shooter@[t] == w0.shooter@[t],
                forall|t: int|
                    i <= t < n ==> world.inertial@[t] == w0.inertial@[t] && world.shooter@[t]
                        == w0.shooter@[t],
                world.pending_creates@ == w0.pending_creates@ + scontrol_creates(
                    w0,
                    *inf,
                    inputs@,
                    take_input,
                    age as int,
                    i as int,
                ),
                world.sounds@ == w0.sounds@ + scontrol_sounds(
                    w0,
                    *inf,
                    inputs@,
                    take_input,
                    age as int,
                    i as int,
                ),
                world.pending_deletes@ == w0.pending_deletes@,
                world.generations@ == w0.generations@,
                world.alive@ == w0.alive@,
                world.spatial@ == w0.spatial@,
                world.bounding@ == w0.bounding@,
                world.hitpoints@ == w0.hitpoints@,
                world.lifetime@ == w0.lifetime@,
                world.explodes@ == w0.explodes@,
                world.exploding@ == w0.exploding@,
                world.powerup@ == w0.powerup@,
                world.controlled@ == w0.controlled@,
                world.computed@ == w0.computed@,
                world.fading@ == w0.fading@,
                world.visual@ == w0.visual@,
            decreases n - i,
        {
            let ghost entry = *world;
            let mut is_actor = false;
            if world.alive[i] {
                if world.controlled[i].is_some() && world.spatial[i].is_some()
                    && world.inertial[i].is_some() && world.shooter[i].is_some()
                    && world.bounding[i].is_some() {
                    is_actor = true;
                }
            }
            proof {
                assert(is_actor == ctrl_actor(w0, i as int));
            }
            if is_actor {
                let ctrl = match world.controlled[i] {
                    Some(c) => c,
                    None => {
                        proof {
                            assert(false);
                        }
                        return ;
                    },
                };
                let sample = Self::find_sample(inputs, ctrl.input_id, take_input);
                let ine = match world.inertial[i] {
                    Some(v) => v,
                    None => {
                        proof {
                            assert(false);
                        }
                        return ;
                    },
                };
                let sp = match world.spatial[i] {
                    Some(v) => v,
                    None => {
                        proof {
                            assert(false);
                        }
                        return ;
                    },
                };
                let bnd = match world.bounding[i] {
                    Some(v) => v,
                    None => {
                        proof {
                            assert(false);
                        }
                        return ;
                    },
                };
                let mut sh = match world.shooter[i] {
                    Some(v) => v,
                    None => {
                        proof {
                            assert(false);
                        }
                        return ;
                    },
                };
                let ghost pre = *world;
                proof {
                    assert(slot_wf(w0, i as int));
                }
                let mut upd = ine;
                upd.v_fraction = Vec2(
                    clamp_i(sample.v_fraction.0, -1000, 1000),
                    clamp_i(sample.v_fraction.1, -1000, 1000),
                );
                upd.motion_type = if sample.strafe {
                    InertialMotionType::StrafeVector
                } else if sample.rotate {
                    InertialMotionType::Detached
                } else {
                    InertialMotionType::FollowVector
                };
                world.inertial.set(i, Some(upd));
                let mut fired = false;
                if sample.shoot {
                    if sh.interval.elapsed(age) {
                        fired = true;
                    }
                }
                world.shooter.set(i, Some(sh));
                proof {
                    assert forall|t: int| 0 <= t < wlen(*world) implies slot_wf(*world, t) by {
                        assert(slot_wf(pre, t));
                    }
                    assert forall|jj: int|
                        0 <= jj < world.pending_creates@.len() implies crate::spawn::bundle_ids_ok(
                        #[trigger] world.pending_creates@[jj],
                        *inf,
                    ) by {
                        assert(crate::spawn::bundle_ids_ok(pre.pending_creates@[jj], *inf));
                    }
                    assert forall|t: int|
                        0 <= t < wlen(*world) && world.alive@[t]
                            && #[trigger] world.shooter@[t] is Some implies
                        world.shooter@[t]->Some_0.spawner.0 < inf.spawner.len() by {
                        assert(pre.alive@[t] && pre.shooter@[t] is Some
                            ==> pre.shooter@[t]->Some_0.spawner.0 < inf.spawner.len());
                    }
                }
                if fired {
                    spawner(
                        world,
                        inf,
                        sh.spawner,
                        sp.angle,
                        Some(sp.position),
                        Some(sp.angle),
                        Some(bnd.faction),
                        age,
                    );
                }
            }
            proof {
                if is_actor {
                    let t = i as int;
                    let smp = sample_for(w0, inputs@, take_input, t);
                    assert(world.inertial@[t] == Some(
                        scontrol_inertial(w0.inertial@[t]->Some_0, smp),
                    ));
                    assert(world.shooter@[t] == Some(
                        scontrol_shooter(w0.shooter@[t]->Some_0, smp, age as int),
                    ));
                }
            }
            i = i + 1;
            proof {
                assert forall|t: int|
                    #![trigger world.inertial@[t]]
                    0 <= t < i && ctrl_actor(w0, t) implies world.inertial@[t] == Some(
                    scontrol_inertial(
                        w0.inertial@[t]->Some_0,
                        sample_for(w0, inputs@, take_input, t),
                    ),
                ) && world.shooter@[t] == Some(
                    scontrol_shooter(
                        w0.shooter@[t]->Some_0,
                        sample_for(w0, inputs@, take_input, t),
                        age as int,
                    ),
                ) by {
                    if t < i - 1 {
                        assert(world.inertial@[t] == entry.inertial@[t]);
                        assert(world.shooter@[t] == entry.shooter@[t]);
                    }
                }
                assert forall|t: int|
                    #![trigger world.inertial@[t]]
                    0 <= t < i && !ctrl_actor(w0, t) implies world.inertial@[t]
                    == w0.inertial@[t] && world.shooter@[t] == w0.shooter@[t] by {
                    if t < i - 1 {
                        assert(world.inertial@[t] == entry.inertial@[t]);
                        assert(world.shooter@[t] == entry.shooter@[t]);
                    }
                }
                assert(world.pending_creates@ =~= w0.pending_creates@ + scontrol_creates(
                    w0,
                    *inf,
                    inputs@,
                    take_input,
                    age as int,
                    i as int,
                ));
                assert(world.sounds@ =~= w0.sounds@ + scontrol_sounds(
                    w0,
                    *inf,
                    inputs@,
                    take_input,
                    age as int,
                    i as int,
                ));
            }
        }
    }
}

} // verus!
