//! The motion integrator: advances every entity that has both a spatial and
//! an inertial component, once per frame.
//!
//! Per entity it derives an approach rate from the desired motion, steps the
//! velocity according to the motion mode — with the angular-rate ceiling for
//! `FollowVector` — derives the cosmetic lean, integrates the position, and
//! reflects at the world boundary.  Per-frame approach ratios are saturated
//! at one: a rate that would overshoot its target in a single frame arrives
//! exactly instead.

use vstd::prelude::*;
use crate::fx::{
    len2, sabs, sclamp, smax, smul, slerp, sqrt_spec, tdiv, lemma_sqrt_spec, lemma_lerp_between,
    lemma_lerp_len_sq, lemma_scaled_unit_len_sq, lemma_tdiv_shrinks, lemma_smul_unit, clamp_i,
    div_t, lerp_m, mul_m,
};
use crate::vec::{Vec2, vlen, vlen2, snormalize_to, lemma_frac_len, lemma_vlen2_nonneg};
use crate::angle::{
    Angle, satan2, salign, snorm, sunit, lemma_norm_range, lemma_sunit_bounds,
};
use crate::components::{Inertial, InertialMotionType, Spatial, COMP_BOUND};
use crate::def::{iwf, swf, VEL_BOUND, VCUR_BOUND};
use crate::world::{wlen, wf, World, slot_wf};

verus! {

/// Longest frame the integrator accepts, in milli-seconds.
pub const DELTA_MAX: i64 = 5_000;

/// Width of the world rectangle, in milli-units.
pub const WORLD_W: i64 = 1_920_000;

/// Height of the world rectangle, in milli-units.
pub const WORLD_H: i64 = 1_080_000;

/// The per-frame approach ratio: the transition rate interpolated between
/// rest and motion by the desired fraction's length, scaled by the frame
/// time and saturated to `[0, 1]`.
pub open spec fn strans(i: Inertial, delta: int) -> int {
    sclamp(
        smul(
            sclamp(slerp(i.trans_rest as int, i.trans_motion as int, vlen(i.v_fraction)), 0, COMP_BOUND as int),
            delta,
        ),
        0,
        1000,
    )
}

/// The current speed as a fraction of the maximum speed, in milli, saturated
/// to `[0, 1]`; zero when the maximum is zero.
pub open spec fn sratio(i: Inertial) -> int {
    let lv = vlen(i.v_current);
    let lm = vlen(i.v_max);
    if lm == 0 {
        0
    } else {
        sclamp(tdiv(lv * 1000, lm), 0, 1000)
    }
}

/// The angular-rate ceiling for this frame: interpolated between the ceiling
/// at rest and at full speed by the squared speed fraction, scaled by the
/// frame time.
pub open spec fn sav_max(i: Inertial, delta: int) -> int {
    smul(
        slerp(i.av_max_v0 as int, i.av_max_vmax as int, smul(sratio(i), sratio(i))),
        delta,
    )
}

/// The desired velocity: the maximum scaled componentwise by the desired
/// fraction.
pub open spec fn sdesired(i: Inertial) -> Vec2 {
    Vec2(
        smul(i.v_max.0 as int, i.v_fraction.0 as int) as i64,
        smul(i.v_max.1 as int, i.v_fraction.1 as int) as i64,
    )
}

/// The velocity the frame steps toward before the angular clamp: the current
/// velocity interpolated toward the desired velocity by the approach ratio.
pub open spec fn svtarget(i: Inertial, delta: int) -> Vec2 {
    Vec2(
        slerp(i.v_current.0 as int, sdesired(i).0 as int, strans(i, delta)) as i64,
        slerp(i.v_current.1 as int, sdesired(i).1 as int, strans(i, delta)) as i64,
    )
}

/// The follow-vector step: velocity turns toward the desired vector, its
/// rotation limited to the angular-rate ceiling; facing follows the
/// velocity; lean follows the rotation.
pub open spec fn sfollow(s: Spatial, i: Inertial, delta: int) -> (Spatial, Inertial) {
    let av_max = sav_max(i, delta);
    let vt = svtarget(i, delta);
    let old_n = snorm(satan2(i.v_current.1 as int, i.v_current.0 as int));
    let target = salign(satan2(vt.1 as int, vt.0 as int), old_n);
    let av_cur = target - old_n;
    let clamped = sabs(av_cur) > av_max;
    let new_angle = if clamped {
        if av_cur >= 0 {
            old_n + av_max
        } else {
            old_n - av_max
        }
    } else {
        target
    };
    let lt = sqrt_spec(vlen2(vt) as nat) as int;
    let v_new = if clamped {
        Vec2(smul(sunit(new_angle).0 as int, lt) as i64, smul(sunit(new_angle).1 as int, lt) as i64)
    } else {
        vt
    };
    let lean = if av_max > 0 {
        let lean_t = sclamp(
            smul(tdiv(av_cur * 1000, av_max), 400 + smul(sratio(i), sratio(i))),
            -1000,
            1000,
        );
        slerp(s.lean as int, lean_t, sclamp(smul(i.trans_lean as int, delta), 0, 1000))
    } else {
        s.lean as int
    };
    (
        Spatial { angle: Angle(new_angle as i64), lean: lean as i64, ..s },
        Inertial { v_current: v_new, ..i },
    )
}

/// The strafe step: velocity approaches the desired vector directly; facing
/// is left alone; lean follows the sideways motion.
pub open spec fn sstrafe(s: Spatial, i: Inertial, delta: int) -> (Spatial, Inertial) {
    let vt = svtarget(i, delta);
    let drift = snorm(satan2(vt.1 as int, vt.0 as int) - s.angle.0 as int);
    let lean_t = sclamp(smul(sunit(drift).1 as int, vlen(i.v_fraction)), -1000, 1000);
    let lean = slerp(s.lean as int, lean_t, sclamp(smul(10_000, delta), 0, 1000));
    (Spatial { lean: lean as i64, ..s }, Inertial { v_current: vt, ..i })
}

/// The detached step: velocity decays toward zero; facing turns toward the
/// desired vector under the at-rest angular ceiling.
pub open spec fn sdetached(s: Spatial, i: Inertial, delta: int) -> (Spatial, Inertial) {
    let vt = Vec2(
        slerp(i.v_current.0 as int, 0, strans(i, delta)) as i64,
        slerp(i.v_current.1 as int, 0, strans(i, delta)) as i64,
    );
    let av_max = smul(i.av_max_v0 as int, delta);
    let old_n = snorm(s.angle.0 as int);
    let target_raw = if vlen2(i.v_fraction) > 0 {
        satan2(i.v_fraction.1 as int, i.v_fraction.0 as int)
    } else {
        s.angle.0 as int
    };
    let target = salign(target_raw, old_n);
    let av_cur = target - old_n;
    let clamped = sabs(av_cur) > av_max;
    let new_angle = if clamped {
        snorm(
            if av_cur >= 0 {
                old_n + av_max
            } else {
                old_n - av_max
            },
        )
    } else {
        target
    };
    let lean = if av_max > 0 {
        let lean_t = sclamp(smul(tdiv(av_cur * 1000, av_max), 1400int), -1000, 1000);
        slerp(s.lean as int, lean_t, sclamp(smul(i.trans_lean as int, delta), 0, 1000))
    } else {
        s.lean as int
    };
    (
        Spatial { angle: Angle(new_angle as i64), lean: lean as i64, ..s },
        Inertial { v_current: vt, ..i },
    )
}

/// The mode step: one of the four motion modes applied to the frame.
pub open spec fn smode(s: Spatial, i: Inertial, delta: int) -> (Spatial, Inertial) {
    match i.motion_type {
        InertialMotionType::FollowVector => sfollow(s, i, delta),
        InertialMotionType::StrafeVector => sstrafe(s, i, delta),
        InertialMotionType::Detached => sdetached(s, i, delta),
        InertialMotionType::Const => (s, i),
    }
}

/// The position advanced by the velocity over the frame.
pub open spec fn smove(s: Spatial, i: Inertial, delta: int) -> Spatial {
    Spatial {
        position: Vec2(
            (s.position.0 + smul(i.v_current.0 as int, delta)) as i64,
            (s.position.1 + smul(i.v_current.1 as int, delta)) as i64,
        ),
        ..s
    }
}

/// The outbound overshoot of a coordinate against `[0, limit]`: zero inside,
/// else the signed distance past the crossed edge.
pub open spec fn sout(p: int, limit: int) -> int {
    if p < 0 {
        p
    } else if p > limit {
        p - limit
    } else {
        0
    }
}

/// The boundary step: a position outside the world rectangle is moved back
/// onto the crossed edge, the velocity component normal to that edge is
/// negated and the tangential component kept, the desired fraction is
/// rescaled to the reflected direction at its original magnitude, and — for
/// every mode but `Detached` — the facing is re-derived from the reflected
/// direction.
pub open spec fn sboundary(s: Spatial, i: Inertial) -> (Spatial, Inertial) {
    let ox = sout(s.position.0 as int, WORLD_W as int);
    let oy = sout(s.position.1 as int, WORLD_H as int);
    if ox == 0 && oy == 0 {
        (s, i)
    } else {
        let v = Vec2(
            if ox != 0 {
                (-i.v_current.0) as i64
            } else {
                i.v_current.0
            },
            if oy != 0 {
                (-i.v_current.1) as i64
            } else {
                i.v_current.1
            },
        );
        let f0 = snormalize_to(v, vlen(i.v_fraction));
        let f = Vec2(
            sclamp(f0.0 as int, -1000, 1000) as i64,
            sclamp(f0.1 as int, -1000, 1000) as i64,
        );
        let angle = if i.motion_type is Detached {
            s.angle
        } else {
            Angle(satan2(f.1 as int, f.0 as int) as i64)
        };
        (
            Spatial {
                position: Vec2((s.position.0 - ox) as i64, (s.position.1 - oy) as i64),
                angle,
                ..s
            },
            Inertial { v_current: v, v_fraction: f, ..i },
        )
    }
}

/// A whole frame of motion for one entity: the mode step, then the position
/// integration, then the boundary step.
pub open spec fn sintegrate(s: Spatial, i: Inertial, delta: int) -> (Spatial, Inertial) {
    let m = smode(s, i, delta);
    sboundary(smove(m.0, m.1, delta), m.1)
}

/// The per-frame approach ratio.
fn trans_rate(i: &Inertial, delta: i64) -> (r: i64)
    requires
        iwf(*i),
        1 <= delta <= DELTA_MAX,
    ensures
        r == strans(*i, delta as int),
        0 <= r <= 1000,
{
    let lenf = i.v_fraction.len();
    proof {
        lemma_frac_len(i.v_fraction);
    }
    let vt = lerp_m(i.trans_rest, i.trans_motion, lenf);
    let vt2 = clamp_i(vt, 0, COMP_BOUND);
    let r = mul_m(vt2, delta);
    clamp_i(r, 0, 1000)
}

/// The saturated speed fraction.
fn speed_ratio(i: &Inertial) -> (r: i64)
    requires
        iwf(*i),
    ensures
        r == sratio(*i),
        0 <= r <= 1000,
{
    let lv = i.v_current.len();
    let lm = i.v_max.len();
    if lm == 0 {
        0
    } else {
        let q = div_t(lv * 1000, lm);
        clamp_i(q, 0, 1000)
    }
}

/// Advances one entity's spatial and inertial state by one frame.
pub fn integrate(spatial: &mut Spatial, inertial: &mut Inertial, delta: i64)
    requires
        swf(*old(spatial)),
        iwf(*old(inertial)),
        1 <= delta <= DELTA_MAX,
    ensures
        (*final(spatial), *final(inertial)) == sintegrate(*old(spatial), *old(inertial), delta as int),
        swf(*final(spatial)),
        iwf(*final(inertial)),
        final(inertial).v_max == old(inertial).v_max,
        final(inertial).motion_type == old(inertial).motion_type,
        vlen2(old(inertial).v_current) <= vlen2(old(inertial).v_max) && !(old(
            inertial,
        ).motion_type is Const) && !(old(inertial).motion_type is Detached) ==> vlen2(
            final(inertial).v_current,
        ) <= vlen2(old(inertial).v_max),
        old(inertial).motion_type is FollowVector && {
            let m = smode(*old(spatial), *old(inertial), delta as int);
            let p = smove(m.0, m.1, delta as int).position;
            sout(p.0 as int, WORLD_W as int) == 0 && sout(p.1 as int, WORLD_H as int) == 0
        } ==> sabs(
            final(spatial).angle.0 - snorm(
                satan2(old(inertial).v_current.1 as int, old(inertial).v_current.0 as int),
            ),
        ) <= smax(sav_max(*old(inertial), delta as int), 0),
{
    let s0 = *spatial;
    let i0 = *inertial;
    match i0.motion_type {
        InertialMotionType::FollowVector => {
            follow_step(spatial, inertial, delta);
        },
        InertialMotionType::StrafeVector => {
            strafe_step(spatial, inertial, delta);
        },
        InertialMotionType::Detached => {
            detached_step(spatial, inertial, delta);
        },
        InertialMotionType::Const => {
        },
    }
    proof {
        assert((*spatial, *inertial) == smode(s0, i0, delta as int));
    }
    move_step(spatial, inertial, delta);
    boundary_step(spatial, inertial);
}

/// The follow-vector step of `integrate`.
fn follow_step(spatial: &mut Spatial, inertial: &mut Inertial, delta: i64)
    requires
        swf(*old(spatial)),
        iwf(*old(inertial)),
        old(inertial).motion_type is FollowVector,
        1 <= delta <= DELTA_MAX,
    ensures
        (*final(spatial), *final(inertial)) == sfollow(*old(spatial), *old(inertial), delta as int),
        swf(*final(spatial)),
        iwf(*final(inertial)),
        final(spatial).position == old(spatial).position,
        final(inertial).v_max == old(inertial).v_max,
        final(inertial).v_fraction == old(inertial).v_fraction,
        final(inertial).motion_type == old(inertial).motion_type,
        vlen2(final(inertial).v_current) <= smax(
            vlen2(old(inertial).v_current),
            vlen2(old(inertial).v_max),
        ),
        sabs(final(spatial).angle.0 as int - snorm(
            satan2(old(inertial).v_current.1 as int, old(inertial).v_current.0 as int),
        )) <= smax(sav_max(*old(inertial), delta as int), 0),
{
    let i0 = *inertial;
    let vt_rate = trans_rate(inertial, delta);
    let ratio = speed_ratio(inertial);
    let vf = mul_m(ratio, ratio);
    proof {
        lemma_smul_unit(ratio as int, ratio as int);
    }
    let av_lim = lerp_m(inertial.av_max_v0, inertial.av_max_vmax, vf);
    proof {
        lemma_lerp_between(inertial.av_max_v0 as int, inertial.av_max_vmax as int, vf as int);
    }
    let av_max = mul_m(av_lim, delta);
    proof {
        lemma_tdiv_shrinks(av_lim * delta);
    }
    let desired = inertial.v_max.mul_v(inertial.v_fraction);
    proof {
        lemma_desired_bounds(i0);
    }
    let vtarget = inertial.v_current.lerp_v(desired, vt_rate);
    proof {
        lemma_lerp_between(i0.v_current.0 as int, desired.0 as int, vt_rate as int);
        lemma_lerp_between(i0.v_current.1 as int, desired.1 as int, vt_rate as int);
        lemma_lerp_len_sq(
            i0.v_current.0 as int,
            i0.v_current.1 as int,
            desired.0 as int,
            desired.1 as int,
            vt_rate as int,
        );
    }
    let old_a = Angle::from_vec(inertial.v_current).normalize();
    let raw_t = Angle::from_vec(vtarget);
    let mut target = raw_t;
    target.align_with(old_a);
    let av_cur = target.0 - old_a.0;
    proof {
        lemma_norm_range(old_a.0 as int);
    }
    let clamped = crate::fx::abs_i(av_cur) > av_max;
    let new_angle: i64 = if clamped {
        if av_cur >= 0 {
            old_a.0 + av_max
        } else {
            old_a.0 - av_max
        }
    } else {
        target.0
    };
    let lt = vtarget.len();
    let v_new: Vec2 = if clamped {
        let u = Angle(new_angle).unit();
        proof {
            lemma_sunit_bounds(new_angle as int);
            assert(vlen2(vtarget) <= smax(vlen2(i0.v_current), vlen2(desired)));
            assert(vlen2(vtarget) <= 2 * VEL_BOUND * VEL_BOUND);
            lemma_vlen2_nonneg(vtarget);
            lemma_sqrt_spec(vlen2(vtarget) as nat);
            assert(lt * lt <= vlen2(vtarget));
            lemma_scaled_unit_len_sq(u.0 as int, u.1 as int, lt as int);
            lemma_vcur_sq_bound(lt as int, vlen2(vtarget));
            lemma_tdiv_shrinks(u.0 * lt);
            lemma_tdiv_shrinks(u.1 * lt);
            assert(sabs(u.0 * lt) <= 1000 * lt && sabs(u.1 * lt) <= 1000 * lt)
                by (nonlinear_arith)
                requires
                    sabs(u.0 as int) <= 1000,
                    sabs(u.1 as int) <= 1000,
                    lt >= 0,
            ;
        }
        Vec2(mul_m(u.0, lt), mul_m(u.1, lt))
    } else {
        vtarget
    };
    let new_lean: i64 = if av_max > 0 {
        let q = div_t(av_cur * 1000, av_max);
        let lean_t = clamp_i(mul_m(q, 400 + vf), -1000, 1000);
        let lean_rate = clamp_i(mul_m(inertial.trans_lean, delta), 0, 1000);
        proof {
            lemma_tdiv_shrinks(inertial.trans_lean * delta);
        }
        let l = lerp_m(spatial.lean, lean_t, lean_rate);
        proof {
            lemma_lerp_between(spatial.lean as int, lean_t as int, lean_rate as int);
        }
        l
    } else {
        spatial.lean
    };
    spatial.angle = Angle(new_angle);
    spatial.lean = new_lean;
    inertial.v_current = v_new;
    proof {
        let m = sfollow(*old(spatial), i0, delta as int);
        assert(*final(spatial) == m.0 && *final(inertial) == m.1);
        assert(vlen2(vtarget) <= smax(vlen2(i0.v_current), vlen2(desired)));
        if clamped {
            lemma_vlen2_nonneg(vtarget);
            lemma_sqrt_spec(vlen2(vtarget) as nat);
            assert(vlen2(*&v_new) <= lt * lt);
            assert(lt * lt <= vlen2(vtarget));
        }
        assert(vlen2(final(inertial).v_current) <= 2 * VEL_BOUND * VEL_BOUND);
        lemma_vcur_component_bound(*final(inertial));
    }
}

/// The desired velocity never exceeds the maximum, componentwise or in
/// squared length.
proof fn lemma_desired_bounds(i: Inertial)
    requires
        iwf(i),
    ensures
        sabs(sdesired(i).0 as int) <= i.v_max.0,
        sabs(sdesired(i).1 as int) <= i.v_max.1,
        vlen2(sdesired(i)) <= vlen2(i.v_max),
        vlen2(i.v_max) <= 2 * VEL_BOUND * VEL_BOUND,
{
    lemma_tdiv_shrinks(i.v_max.0 * i.v_fraction.0);
    lemma_tdiv_shrinks(i.v_max.1 * i.v_fraction.1);
    assert(sabs(i.v_max.0 * i.v_fraction.0) <= 1000 * i.v_max.0 && sabs(
        i.v_max.1 * i.v_fraction.1,
    ) <= 1000 * i.v_max.1) by (nonlinear_arith)
        requires
            sabs(i.v_fraction.0 as int) <= 1000,
            sabs(i.v_fraction.1 as int) <= 1000,
            i.v_max.0 >= 0,
            i.v_max.1 >= 0,
    ;
    let d = sdesired(i);
    assert(d.0 * d.0 <= i.v_max.0 * i.v_max.0 && d.1 * d.1 <= i.v_max.1 * i.v_max.1)
        by (nonlinear_arith)
        requires
            sabs(d.0 as int) <= i.v_max.0,
            sabs(d.1 as int) <= i.v_max.1,
            i.v_max.0 >= 0,
            i.v_max.1 >= 0,
    ;
    assert(i.v_max.0 * i.v_max.0 + i.v_max.1 * i.v_max.1 <= 2 * VEL_BOUND * VEL_BOUND)
        by (nonlinear_arith)
        requires
            0 <= i.v_max.0 <= VEL_BOUND,
            0 <= i.v_max.1 <= VEL_BOUND,
    ;
}

/// A length whose square is within the diagonal bound is itself within the
/// current-velocity bound.
proof fn lemma_vcur_sq_bound(lt: int, sq: int)
    requires
        0 <= lt,
        lt * lt <= sq,
        sq <= 2 * VEL_BOUND * VEL_BOUND,
    ensures
        lt <= VCUR_BOUND,
{
    if lt > VCUR_BOUND {
        assert(VCUR_BOUND * VCUR_BOUND < lt * lt) by (nonlinear_arith)
            requires
                lt > VCUR_BOUND,
        ;
        assert(false) by (nonlinear_arith)
            requires
                VCUR_BOUND * VCUR_BOUND < lt * lt,
                lt * lt <= 2 * VEL_BOUND * VEL_BOUND,
        ;
    }
}

/// A velocity whose squared length is within the diagonal bound has both
/// components within the current-velocity bound.
proof fn lemma_vcur_component_bound(i: Inertial)
    requires
        vlen2(i.v_current) <= 2 * VEL_BOUND * VEL_BOUND,
    ensures
        sabs(i.v_current.0 as int) <= VCUR_BOUND,
        sabs(i.v_current.1 as int) <= VCUR_BOUND,
{
    let x = sabs(i.v_current.0 as int);
    let y = sabs(i.v_current.1 as int);
    assert(x * x <= vlen2(i.v_current) && y * y <= vlen2(i.v_current)) by (nonlinear_arith)
        requires
            vlen2(i.v_current) == i.v_current.0 * i.v_current.0 + i.v_current.1 * i.v_current.1,
            x == sabs(i.v_current.0 as int),
            y == sabs(i.v_current.1 as int),
    ;
    lemma_vcur_sq_bound(x, vlen2(i.v_current));
    lemma_vcur_sq_bound(y, vlen2(i.v_current));
}

/// The strafe step of `integrate`.
fn strafe_step(spatial: &mut Spatial, inertial: &mut Inertial, delta: i64)
    requires
        swf(*old(spatial)),
        iwf(*old(inertial)),
        old(inertial).motion_type is StrafeVector,
        1 <= delta <= DELTA_MAX,
    ensures
        (*final(spatial), *final(inertial)) == sstrafe(*old(spatial), *old(inertial), delta as int),
        swf(*final(spatial)),
        iwf(*final(inertial)),
        final(spatial).position == old(spatial).position,
        final(spatial).angle == old(spatial).angle,
        final(inertial).v_max == old(inertial).v_max,
        final(inertial).v_fraction == old(inertial).v_fraction,
        final(inertial).motion_type == old(inertial).motion_type,
        vlen2(final(inertial).v_current) <= smax(
            vlen2(old(inertial).v_current),
            vlen2(old(inertial).v_max),
        ),
{
    let i0 = *inertial;
    let vt_rate = trans_rate(inertial, delta);
    let desired = inertial.v_max.mul_v(inertial.v_fraction);
    proof {
        lemma_desired_bounds(i0);
    }
    let vtarget = inertial.v_current.lerp_v(desired, vt_rate);
    proof {
        lemma_lerp_between(i0.v_current.0 as int, desired.0 as int, vt_rate as int);
        lemma_lerp_between(i0.v_current.1 as int, desired.1 as int, vt_rate as int);
        lemma_lerp_len_sq(
            i0.v_current.0 as int,
            i0.v_current.1 as int,
            desired.0 as int,
            desired.1 as int,
            vt_rate as int,
        );
    }
    let drift_raw = Angle::from_vec(vtarget);
    let drift = Angle(drift_raw.0 - spatial.angle.0).normalize();
    let u = drift.unit();
    let lenf = inertial.v_fraction.len();
    proof {
        lemma_sunit_bounds(drift.0 as int);
        lemma_frac_len(i0.v_fraction);
    }
    let lean_t = clamp_i(mul_m(u.1, lenf), -1000, 1000);
    let lean_rate = clamp_i(mul_m(10_000, delta), 0, 1000);
    proof {
        lemma_tdiv_shrinks(10_000 * delta);
    }
    let l = lerp_m(spatial.lean, lean_t, lean_rate);
    proof {
        lemma_lerp_between(spatial.lean as int, lean_t as int, lean_rate as int);
    }
    spatial.lean = l;
    inertial.v_current = vtarget;
    proof {
        assert(vlen2(vtarget) <= smax(vlen2(i0.v_current), vlen2(desired)));
        assert(vlen2(final(inertial).v_current) <= 2 * VEL_BOUND * VEL_BOUND);
        lemma_vcur_component_bound(*final(inertial));
    }
}

/// The detached step of `integrate`.
fn detached_step(spatial: &mut Spatial, inertial: &mut Inertial, delta: i64)
    requires
        swf(*old(spatial)),
        iwf(*old(inertial)),
        old(inertial).motion_type is Detached,
        1 <= delta <= DELTA_MAX,
    ensures
        (*final(spatial), *final(inertial)) == sdetached(*old(spatial), *old(inertial), delta as int),
        swf(*final(spatial)),
        iwf(*final(inertial)),
        final(spatial).position == old(spatial).position,
        final(inertial).v_max == old(inertial).v_max,
        final(inertial).v_fraction == old(inertial).v_fraction,
        final(inertial).motion_type == old(inertial).motion_type,
        vlen2(final(inertial).v_current) <= smax(vlen2(old(inertial).v_current), 0),
{
    let i0 = *inertial;
    let vt_rate = trans_rate(inertial, delta);
    let vtarget = inertial.v_current.lerp_v(Vec2(0, 0), vt_rate);
    proof {
        lemma_lerp_between(i0.v_current.0 as int, 0, vt_rate as int);
        lemma_lerp_between(i0.v_current.1 as int, 0, vt_rate as int);
        lemma_lerp_len_sq(i0.v_current.0 as int, i0.v_current.1 as int, 0, 0, vt_rate as int);
    }
    let av_max = mul_m(inertial.av_max_v0, delta);
    proof {
        lemma_tdiv_shrinks(inertial.av_max_v0 * delta);
    }
    let old_n = spatial.angle.normalize();
    let target_raw: Angle = if inertial.v_fraction.len_sq() > 0 {
        Angle::from_vec(inertial.v_fraction)
    } else {
        spatial.angle
    };
    let mut target = target_raw;
    target.align_with(old_n);
    proof {
        lemma_norm_range(old_n.0 as int);
        lemma_norm_range(spatial.angle.0 as int);
    }
    let av_cur = target.0 - old_n.0;
    let clamped = crate::fx::abs_i(av_cur) > av_max;
    let new_angle: i64 = if clamped {
        let stepped = if av_cur >= 0 {
            old_n.0 + av_max
        } else {
            old_n.0 - av_max
        };
        Angle(stepped).normalize().0
    } else {
        target.0
    };
    let new_lean: i64 = if av_max > 0 {
        let q = div_t(av_cur * 1000, av_max);
        let lean_t = clamp_i(mul_m(q, 400 + 1000), -1000, 1000);
        let lean_rate = clamp_i(mul_m(inertial.trans_lean, delta), 0, 1000);
        proof {
            lemma_tdiv_shrinks(inertial.trans_lean * delta);
        }
        let l = lerp_m(spatial.lean, lean_t, lean_rate);
        proof {
            lemma_lerp_between(spatial.lean as int, lean_t as int, lean_rate as int);
        }
        l
    } else {
        spatial.lean
    };
    spatial.angle = Angle(new_angle);
    spatial.lean = new_lean;
    inertial.v_current = vtarget;
    proof {
        assert(vlen2(vtarget) <= smax(vlen2(i0.v_current), len2(0, 0)));
        assert(vlen2(final(inertial).v_current) <= 2 * VEL_BOUND * VEL_BOUND);
        lemma_vcur_component_bound(*final(inertial));
    }
}

/// The position integration of `integrate`.
fn move_step(spatial: &mut Spatial, inertial: &Inertial, delta: i64)
    requires
        swf(*old(spatial)),
        iwf(*inertial),
        1 <= delta <= DELTA_MAX,
    ensures
        *final(spatial) == smove(*old(spatial), *inertial, delta as int),
        final(spatial).angle == old(spatial).angle,
        final(spatial).lean == old(spatial).lean,
        sabs(final(spatial).position.0 as int) <= COMP_BOUND + 750_000_000,
        sabs(final(spatial).position.1 as int) <= COMP_BOUND + 750_000_000,
{
    let dx = mul_m(inertial.v_current.0, delta);
    let dy = mul_m(inertial.v_current.1, delta);
    proof {
        lemma_tdiv_shrinks(inertial.v_current.0 * delta);
        lemma_tdiv_shrinks(inertial.v_current.1 * delta);
        assert(sabs(inertial.v_current.0 * delta) <= VCUR_BOUND * DELTA_MAX && sabs(
            inertial.v_current.1 * delta,
        ) <= VCUR_BOUND * DELTA_MAX) by (nonlinear_arith)
            requires
                sabs(inertial.v_current.0 as int) <= VCUR_BOUND,
                sabs(inertial.v_current.1 as int) <= VCUR_BOUND,
                1 <= delta <= DELTA_MAX,
        ;
    }
    spatial.position = Vec2(spatial.position.0 + dx, spatial.position.1 + dy);
}

/// The boundary step of `integrate`; the position may arrive here outside
/// the stored component range, as long as it is within the working range.
fn boundary_step(spatial: &mut Spatial, inertial: &mut Inertial)
    requires
        cfits_wide(old(spatial).position.0 as int),
        cfits_wide(old(spatial).position.1 as int),
        crate::components::cfits(old(spatial).angle.0 as int),
        sabs(old(spatial).lean as int) <= 1000,
        iwf(*old(inertial)),
    ensures
        (*final(spatial), *final(inertial)) == sboundary(*old(spatial), *old(inertial)),
        swf(*final(spatial)),
        iwf(*final(inertial)),
        final(inertial).v_max == old(inertial).v_max,
        final(inertial).motion_type == old(inertial).motion_type,
        vlen2(final(inertial).v_current) == vlen2(old(inertial).v_current),
        0 <= final(spatial).position.0 <= WORLD_W || final(spatial).position.0 == old(
            spatial,
        ).position.0,
        0 <= final(spatial).position.1 <= WORLD_H || final(spatial).position.1 == old(
            spatial,
        ).position.1,
{
    let p = spatial.position;
    let ox: i64 = if p.0 < 0 {
        p.0
    } else if p.0 > WORLD_W {
        p.0 - WORLD_W
    } else {
        0
    };
    let oy: i64 = if p.1 < 0 {
        p.1
    } else if p.1 > WORLD_H {
        p.1 - WORLD_H
    } else {
        0
    };
    if ox == 0 && oy == 0 {
        return ;
    }
    let v0 = inertial.v_current;
    let v = Vec2(
        if ox != 0 {
            -v0.0
        } else {
            v0.0
        },
        if oy != 0 {
            -v0.1
        } else {
            v0.1
        },
    );
    proof {
        assert(v.0 * v.0 == v0.0 * v0.0 && v.1 * v.1 == v0.1 * v0.1) by (nonlinear_arith)
            requires
                v.0 == v0.0 || v.0 == -v0.0,
                v.1 == v0.1 || v.1 == -v0.1,
        ;
    }
    let lenf = inertial.v_fraction.len();
    proof {
        lemma_frac_len(inertial.v_fraction);
    }
    let f0 = v.normalize_to(lenf);
    let f = Vec2(clamp_i(f0.0, -1000, 1000), clamp_i(f0.1, -1000, 1000));
    let keep_detached = match inertial.motion_type {
        InertialMotionType::Detached => true,
        _ => false,
    };
    let new_angle: Angle = if keep_detached {
        spatial.angle
    } else {
        Angle::from_vec(f)
    };
    spatial.position = Vec2(p.0 - ox, p.1 - oy);
    spatial.angle = new_angle;
    inertial.v_current = v;
    inertial.v_fraction = f;
    proof {
        lemma_vcur_component_bound(*final(inertial));
    }
}

/// The wider range a position may occupy between integration and the
/// boundary step.
pub open spec fn cfits_wide(x: int) -> bool {
    -(COMP_BOUND + 750_000_000) <= x <= COMP_BOUND + 750_000_000
}

/// The motion integrator system.
pub struct Inertia;

impl Inertia {
    /// Applies one frame of motion to every live entity that has both a
    /// spatial and an inertial component; everything else is untouched.
    pub fn run(&mut self, world: &mut World, delta: i64)
        requires
            wf(*old(world)),
            1 <= delta <= DELTA_MAX,
        ensures
            wf(*final(world)),
            wlen(*final(world)) == wlen(*old(world)),
            final(world).generations@ == old(world).generations@,
            final(world).alive@ == old(world).alive@,
            final(world).pending_deletes@ == old(world).pending_deletes@,
            final(world).pending_creates@ == old(world).pending_creates@,
            final(world).sounds@ == old(world).sounds@,
            final(world).bounding@ == old(world).bounding@,
            final(world).hitpoints@ == old(world).hitpoints@,
            final(world).lifetime@ == old(world).lifetime@,
            final(world).shooter@ == old(world).shooter@,
            final(world).explodes@ == old(world).explodes@,
            final(world).exploding@ == old(world).exploding@,
            final(world).powerup@ == old(world).powerup@,
            final(world).controlled@ == old(world).controlled@,
            final(world).computed@ == old(world).computed@,
            final(world).fading@ == old(world).fading@,
            final(world).visual@ == old(world).visual@,
            forall|i: int|
                #![trigger final(world).spatial@[i]]
                0 <= i < wlen(*old(world)) ==> if old(world).alive@[i] && old(world).spatial@[i] is Some
                    && old(world).inertial@[i] is Some {
                    {
                        let r = sintegrate(
                            old(world).spatial@[i]->Some_0,
                            old(world).inertial@[i]->Some_0,
                            delta as int,
                        );
                        final(world).spatial@[i] == Some(r.0) && final(world).inertial@[i] == Some(
                            r.1,
                        )
                    }
                } else {
                    final(world).spatial@[i] == old(world).spatial@[i] && final(world).inertial@[i]
                        == old(world).inertial@[i]
                },
    {
        let ghost w0 = *world;
        let n = world.alive.len();
        let mut idx: usize = 0;
        while idx < n
            invariant
                wf(*world),
                n == wlen(w0),
                idx <= n,
                wlen(*world) == wlen(w0),
                world.generations@ == w0.generations@,
                world.alive@ == w0.alive@,
                world.pending_deletes@ == w0.pending_deletes@,
                world.pending_creates@ == w0.pending_creates@,
                world.sounds@ == w0.sounds@,
                world.bounding@ == w0.bounding@,
                world.hitpoints@ == w0.hitpoints@,
                world.lifetime@ == w0.lifetime@,
                world.shooter@ == w0.shooter@,
                world.explodes@ == w0.explodes@,
                world.exploding@ == w0.exploding@,
                world.powerup@ == w0.powerup@,
                world.controlled@ == w0.controlled@,
                world.computed@ == w0.computed@,
                world.fading@ == w0.fading@,
                world.visual@ == w0.visual@,
                1 <= delta <= DELTA_MAX,
                forall|i: int|
                    #![trigger world.spatial@[i]]
                    0 <= i < idx ==> if w0.alive@[i] && w0.spatial@[i] is Some
                        && w0.inertial@[i] is Some {
                        {
                            let r = sintegrate(
                                w0.spatial@[i]->Some_0,
                                w0.inertial@[i]->Some_0,
                                delta as int,
                            );
                            world.spatial@[i] == Some(r.0) && world.inertial@[i] == Some(r.1)
                        }
                    } else {
                        world.spatial@[i] == w0.spatial@[i] && world.inertial@[i] == w0.inertial@[i]
                    },
                forall|i: int|
                    idx <= i < n ==> world.spatial@[i] == w0.spatial@[i] && world.inertial@[i]
                        == w0.inertial@[i],
            decreases n - idx,
        {
            let ghost pre = *world;
            if world.alive[idx] {
                if let Some(s_opt) = world.spatial[idx] {
                    if let Some(i_opt) = world.inertial[idx] {
                        let mut s = s_opt;
                        let mut ine = i_opt;
                        proof {
                            assert(slot_wf(*world, idx as int));
                        }
                        integrate(&mut s, &mut ine, delta);
                        world.spatial.set(idx, Some(s));
                        world.inertial.set(idx, Some(ine));
                        proof {
                            let r = sintegrate(
                                w0.spatial@[idx as int]->Some_0,
                                w0.inertial@[idx as int]->Some_0,
                                delta as int,
                            );
                            assert(world.spatial@[idx as int] == Some(r.0) && world.inertial@[
                                idx as int
                            ] == Some(r.1));
                            assert forall|i: int| 0 <= i < wlen(*world) implies slot_wf(
                                *world,
                                i,
                            ) by {
                                if i != idx {
                                    assert(slot_wf(pre, i));
                                }
                            }
                            assert forall|j: int|
                                0 <= j < world.pending_creates@.len() implies crate::def::bwf(
                                world.pending_creates@[j],
                            ) by {
                                assert(crate::def::bwf(pre.pending_creates@[j]));
                            }
                        }
                    }
                }
            }
            idx = idx + 1;
        }
    }
}

} // verus!
