//! Identifiers and immutable templates: factions, spawner directives and
//! entity blueprints.
//!
//! Templates are supplied already resolved by an external loader and only
//! read here.  `EntityDescriptor::configure` materializes a component bundle
//! from a blueprint, applying the position, angle and faction overrides and
//! shifting age-relative timestamps by the current age.

use vstd::prelude::*;
use crate::fx::{fits, len2, sabs, smul};
use crate::vec::{Vec2, vlen2};
use crate::angle::{Angle, sunit, lemma_sunit_bounds};
use crate::components::{
    cfits, Bounding, Computed, Controlled, Explodes, Fading, Hitpoints, Inertial, Lifetime,
    Powerup, Shooter, Spatial, Visual, COMP_BOUND,
};

verus! {

/// Integer group id; collision and damage apply only across differing
/// factions.
#[derive(Clone, Copy, Debug, PartialEq, Eq, Structural)]
pub struct FactionId(pub usize);

/// Index of a spawner descriptor in the spawner repository.
#[derive(Clone, Copy, Debug, PartialEq, Eq, Structural)]
pub struct SpawnerId(pub usize);

/// Which directives of a spawner fire for a trigger.  Only `All` has defined
/// semantics; how `Index` and `BitMask` select directives is an open design
/// question, and the spawn protocol fires every directive.
#[derive(Clone, Copy, Debug, PartialEq, Eq, Structural)]
pub enum SpawnerDispatch {
    /// Every directive fires.
    All,
    /// Reserved: selection of one directive by an external index.
    Index,
    /// Reserved: selection of a subset by a bitmask.
    BitMask,
}

/// One spawn directive: a named base entity placed at an offset from the
/// trigger, with an optional sound cue.
#[derive(Clone, Debug)]
pub struct SpawnerParameters {
    /// Offset from the trigger origin, rotated by the trigger's angle.
    pub position: Vec2,
    /// Angle offset of the spawned entity.
    pub angle: Angle,
    /// Name of the entity blueprint to instantiate, if any.
    pub entity: Option<String>,
    /// Name of the sound cue to request, if any.
    pub sound: Option<String>,
}

/// An ordered list of spawn directives.
#[derive(Clone, Debug)]
pub struct SpawnerDescriptor {
    /// How directives are selected; see `SpawnerDispatch`.
    pub dispatch: SpawnerDispatch,
    /// The directives, fired in order.
    pub entities: Vec<SpawnerParameters>,
}

/// An immutable blueprint: a bundle of optional component prototypes from
/// which entities are instantiated.
#[derive(Clone, Copy, Debug, PartialEq, Eq, Structural)]
pub struct EntityDescriptor {
    /// Collision body prototype.
    pub bounding: Option<Bounding>,
    /// Marker: intent produced by the heuristic ai.
    pub computed: Option<Computed>,
    /// Marker: intent produced from device input.
    pub controlled: Option<Controlled>,
    /// Destruction trigger prototype.
    pub explodes: Option<Explodes>,
    /// Fade-out window prototype, age-relative.
    pub fading: Option<Fading>,
    /// Health prototype.
    pub hitpoints: Option<Hitpoints>,
    /// Motion state prototype.
    pub inertial: Option<Inertial>,
    /// Expiry time prototype, age-relative.
    pub lifetime: Option<Lifetime>,
    /// Pickup trigger prototype.
    pub powerup: Option<Powerup>,
    /// Shooter prototype.
    pub shooter: Option<Shooter>,
    /// Position and orientation prototype.
    pub spatial: Option<Spatial>,
    /// Presentation prototype.
    pub visual: Option<Visual>,
}

/// Bound on the maximum-velocity components, in milli-units per second.
pub const VEL_BOUND: i64 = 100_000_000;

/// Bound on the current-velocity components; wide enough for any velocity
/// whose squared length is within `2 * VEL_BOUND^2`.
pub const VCUR_BOUND: i64 = 150_000_000;

/// Whether a motion state is within its stated ranges: non-negative maximum
/// velocity, desired fraction within one, current velocity no longer than
/// the longest diagonal maximum, all rates bounded.
pub open spec fn iwf(i: Inertial) -> bool {
    &&& 0 <= i.v_max.0 <= VEL_BOUND
    &&& 0 <= i.v_max.1 <= VEL_BOUND
    &&& sabs(i.v_fraction.0 as int) <= 1000
    &&& sabs(i.v_fraction.1 as int) <= 1000
    &&& sabs(i.v_current.0 as int) <= VCUR_BOUND
    &&& sabs(i.v_current.1 as int) <= VCUR_BOUND
    &&& vlen2(i.v_current) <= 2 * VEL_BOUND * VEL_BOUND
    &&& 0 <= i.trans_motion <= COMP_BOUND
    &&& 0 <= i.trans_rest <= COMP_BOUND
    &&& 0 <= i.av_max_v0 <= COMP_BOUND
    &&& 0 <= i.av_max_vmax <= COMP_BOUND
    &&& 0 <= i.trans_lean <= COMP_BOUND
}

/// Whether a spatial record is within its stated ranges.
pub open spec fn swf(s: Spatial) -> bool {
    &&& cfits(s.position.0 as int)
    &&& cfits(s.position.1 as int)
    &&& cfits(s.angle.0 as int)
    &&& sabs(s.lean as int) <= 1000
}

/// Whether a blueprint is well formed: every present prototype within its
/// stated ranges.
pub open spec fn dwf(d: EntityDescriptor) -> bool {
    &&& (d.bounding is Some ==> 0 <= d.bounding->Some_0.radius <= COMP_BOUND)
    &&& (d.fading is Some ==> cfits(d.fading->Some_0.start as int) && cfits(d.fading->Some_0.end as int))
    &&& (d.hitpoints is Some ==> 0 <= (d.hitpoints->Some_0).0 <= COMP_BOUND)
    &&& (d.inertial is Some ==> iwf(d.inertial->Some_0))
    &&& (d.lifetime is Some ==> cfits((d.lifetime->Some_0).0 as int))
    &&& (d.powerup is Some ==> 0 <= d.powerup->Some_0.radius <= COMP_BOUND)
    &&& (d.shooter is Some ==> 0 <= d.shooter->Some_0.interval.interval <= COMP_BOUND && cfits(
        d.shooter->Some_0.interval.next as int,
    ))
    &&& (d.spatial is Some ==> swf(d.spatial->Some_0))
}

/// Whether a materialized component bundle is within the world's working
/// ranges: like `dwf`, but the age-shifted timestamps may use the full
/// working range.
pub open spec fn bwf(d: EntityDescriptor) -> bool {
    &&& (d.bounding is Some ==> 0 <= d.bounding->Some_0.radius <= COMP_BOUND)
    &&& (d.fading is Some ==> fits(d.fading->Some_0.start as int) && fits(
        d.fading->Some_0.end as int,
    ))
    &&& (d.hitpoints is Some ==> 0 <= (d.hitpoints->Some_0).0 <= COMP_BOUND)
    &&& (d.inertial is Some ==> iwf(d.inertial->Some_0))
    &&& (d.lifetime is Some ==> fits((d.lifetime->Some_0).0 as int))
    &&& (d.powerup is Some ==> 0 <= d.powerup->Some_0.radius <= COMP_BOUND)
    &&& (d.shooter is Some ==> 0 <= d.shooter->Some_0.interval.interval <= COMP_BOUND && fits(
        d.shooter->Some_0.interval.next as int,
    ))
    &&& (d.spatial is Some ==> swf(d.spatial->Some_0))
}

/// The bundle `configure` returns: the blueprint with overrides applied and
/// age-relative timestamps shifted by `age`.
pub open spec fn sconfigure(
    d: EntityDescriptor,
    age: int,
    position: Option<Vec2>,
    angle: Option<Angle>,
    faction: Option<FactionId>,
) -> EntityDescriptor {
    EntityDescriptor {
        bounding: match d.bounding {
            Some(b) => Some(
                Bounding {
                    faction: if faction is Some {
                        faction->Some_0
                    } else {
                        b.faction
                    },
                    ..b
                },
            ),
            None => None,
        },
        fading: match d.fading {
            Some(f) => Some(Fading { start: (f.start + age) as i64, end: (f.end + age) as i64 }),
            None => None,
        },
        inertial: match d.inertial {
            Some(i) => Some(
                if angle is Some {
                    Inertial {
                        v_fraction: sunit((angle->Some_0).0 as int),
                        v_current: Vec2(
                            smul(sunit((angle->Some_0).0 as int).0 as int, i.v_max.0 as int) as i64,
                            smul(sunit((angle->Some_0).0 as int).1 as int, i.v_max.1 as int) as i64,
                        ),
                        ..i
                    }
                } else {
                    i
                },
            ),
            None => None,
        },
        lifetime: match d.lifetime {
            Some(l) => Some(Lifetime((l.0 + age) as i64)),
            None => None,
        },
        spatial: match d.spatial {
            Some(s) => Some(
                Spatial {
                    position: if position is Some {
                        position->Some_0
                    } else {
                        s.position
                    },
                    angle: if angle is Some {
                        angle->Some_0
                    } else {
                        s.angle
                    },
                    ..s
                },
            ),
            None => None,
        },
        ..d
    }
}

/// Scaling a bounded maximum velocity by a unit vector keeps each component
/// under the maximum and the squared length under the diagonal bound.
proof fn lemma_scaled_unit_ok(u0: int, u1: int, m0: int, m1: int)
    requires
        sabs(u0) <= 1000,
        sabs(u1) <= 1000,
        0 <= m0 <= VEL_BOUND,
        0 <= m1 <= VEL_BOUND,
    ensures
        sabs(smul(u0, m0)) <= m0,
        sabs(smul(u1, m1)) <= m1,
        len2(smul(u0, m0), smul(u1, m1)) <= 2 * VEL_BOUND * VEL_BOUND,
{
    crate::fx::lemma_tdiv_shrinks(u0 * m0);
    crate::fx::lemma_tdiv_shrinks(u1 * m1);
    assert(sabs(u0 * m0) <= 1000 * m0 && sabs(u1 * m1) <= 1000 * m1) by (nonlinear_arith)
        requires
            sabs(u0) <= 1000,
            sabs(u1) <= 1000,
            m0 >= 0,
            m1 >= 0,
    ;
    let c0 = smul(u0, m0);
    let c1 = smul(u1, m1);
    assert(c0 * c0 <= m0 * m0 && c1 * c1 <= m1 * m1) by (nonlinear_arith)
        requires
            sabs(c0) <= m0,
            sabs(c1) <= m1,
            0 <= m0,
            0 <= m1,
    ;
    assert(m0 * m0 <= VEL_BOUND * VEL_BOUND && m1 * m1 <= VEL_BOUND * VEL_BOUND)
        by (nonlinear_arith)
        requires
            0 <= m0 <= VEL_BOUND,
            0 <= m1 <= VEL_BOUND,
    ;
}

impl EntityDescriptor {
    /// An empty blueprint, with no component prototypes.
    pub fn empty() -> (r: EntityDescriptor)
        ensures
            r == (EntityDescriptor {
                bounding: None,
                computed: None,
                controlled: None,
                explodes: None,
                fading: None,
                hitpoints: None,
                inertial: None,
                lifetime: None,
                powerup: None,
                shooter: None,
                spatial: None,
                visual: None,
            }),
    {
        EntityDescriptor {
            bounding: None,
            computed: None,
            controlled: None,
            explodes: None,
            fading: None,
            hitpoints: None,
            inertial: None,
            lifetime: None,
            powerup: None,
            shooter: None,
            spatial: None,
            visual: None,
        }
    }

    /// Materializes a component bundle from this blueprint: copies each
    /// present prototype, overriding position, angle and faction, and shifts
    /// the age-relative expiry and fade times by `age`.
    pub fn configure(
        &self,
        age: i64,
        position: Option<Vec2>,
        angle: Option<Angle>,
        faction: Option<FactionId>,
    ) -> (r: EntityDescriptor)
        requires
            dwf(*self),
            0 <= age <= COMP_BOUND,
            position is Some ==> cfits((position->Some_0).0 as int) && cfits((position->Some_0).1 as int),
            angle is Some ==> cfits((angle->Some_0).0 as int),
        ensures
            r == sconfigure(*self, age as int, position, angle, faction),
            bwf(r),
    {
        let mut r = *self;
        if let Some(bounding) = self.bounding {
            let mut b = bounding;
            if let Some(f) = faction {
                b.faction = f;
            }
            r.bounding = Some(b);
        }
        if let Some(fading) = self.fading {
            r.fading = Some(Fading { start: fading.start + age, end: fading.end + age });
        }
        if let Some(inertial) = self.inertial {
            let mut i = inertial;
            if let Some(a) = angle {
                proof {
                    lemma_sunit_bounds(a.0 as int);
                }
                let u = a.unit();
                i.v_fraction = u;
                i.v_current = u.mul_v(i.v_max);
                proof {
                    lemma_scaled_unit_ok(
                        u.0 as int,
                        u.1 as int,
                        i.v_max.0 as int,
                        i.v_max.1 as int,
                    );
                }
            }
            r.inertial = Some(i);
        }
        if let Some(lifetime) = self.lifetime {
            r.lifetime = Some(Lifetime(lifetime.0 + age));
        }
        if let Some(spatial) = self.spatial {
            let mut s = spatial;
            if let Some(p) = position {
                s.position = p;
            }
            if let Some(a) = angle {
                s.angle = a;
            }
            r.spatial = Some(s);
        }
        r
    }
}

} // verus!
