//! 2d vectors in milli-units.

use vstd::prelude::*;
use crate::fx::{
    fits, sabs, len2, tdiv, smul, slerp, sqrt_spec, lemma_sqrt_spec, mul_m, lerp_m, div_t, isqrt,
    FX_BOUND, PROD_BOUND,
};

verus! {

/// A 2d vector; `.1` grows downward, as on screen.
#[derive(Clone, Copy, Debug, PartialEq, Eq, Structural)]
pub struct Vec2(pub i64, pub i64);

/// Both components are within the simulation's working range.
pub open spec fn vfits(v: Vec2) -> bool {
    fits(v.0 as int) && fits(v.1 as int)
}

/// Squared length.
pub open spec fn vlen2(v: Vec2) -> int {
    len2(v.0 as int, v.1 as int)
}

/// Rounded-down length.
pub open spec fn vlen(v: Vec2) -> int {
    sqrt_spec(vlen2(v) as nat) as int
}

/// A component never exceeds the rounded-down length.
pub proof fn lemma_component_le_len(v: Vec2)
    ensures
        sabs(v.0 as int) <= vlen(v),
        sabs(v.1 as int) <= vlen(v),
{
    lemma_sqrt_spec(vlen2(v) as nat);
    let l = vlen(v);
    assert(sabs(v.0 as int) * sabs(v.0 as int) <= vlen2(v)) by (nonlinear_arith);
    assert(sabs(v.1 as int) * sabs(v.1 as int) <= vlen2(v)) by (nonlinear_arith);
    if sabs(v.0 as int) > l {
        assert((l + 1) * (l + 1) <= sabs(v.0 as int) * sabs(v.0 as int)) by (nonlinear_arith)
            requires
                l + 1 <= sabs(v.0 as int),
                l >= 0,
        ;
    }
    if sabs(v.1 as int) > l {
        assert((l + 1) * (l + 1) <= sabs(v.1 as int) * sabs(v.1 as int)) by (nonlinear_arith)
            requires
                l + 1 <= sabs(v.1 as int),
                l >= 0,
        ;
    }
}

/// A squared length is never negative.
pub proof fn lemma_vlen2_nonneg(v: Vec2)
    ensures
        vlen2(v) >= 0,
{
    assert(v.0 * v.0 >= 0 && v.1 * v.1 >= 0) by (nonlinear_arith);
}

/// A vector whose components are within one has length within the unit
/// diagonal.
pub proof fn lemma_frac_len(v: Vec2)
    requires
        sabs(v.0 as int) <= 1000,
        sabs(v.1 as int) <= 1000,
    ensures
        0 <= vlen(v) <= 1415,
{
    assert(0 <= vlen2(v) <= 2_000_000) by (nonlinear_arith)
        requires
            sabs(v.0 as int) <= 1000,
            sabs(v.1 as int) <= 1000,
    ;
    lemma_sqrt_spec(vlen2(v) as nat);
    let lf = vlen(v);
    assert(lf * lf <= vlen2(v));
    if lf > 1415 {
        assert(1415 * 1415 < lf * lf) by (nonlinear_arith)
            requires
                lf > 1415,
        ;
    }
}

impl Vec2 {
    /// The zero vector.
    pub fn zero() -> (r: Vec2)
        ensures
            r == (Vec2(0, 0)),
    {
        Vec2(0, 0)
    }

    /// Componentwise sum.
    pub fn plus(self, o: Vec2) -> (r: Vec2)
        requires
            fits(self.0 + o.0),
            fits(self.1 + o.1),
        ensures
            r == (Vec2((self.0 + o.0) as i64, (self.1 + o.1) as i64)),
    {
        Vec2(self.0 + o.0, self.1 + o.1)
    }

    /// Componentwise difference.
    pub fn minus(self, o: Vec2) -> (r: Vec2)
        requires
            fits(self.0 - o.0),
            fits(self.1 - o.1),
        ensures
            r == (Vec2((self.0 - o.0) as i64, (self.1 - o.1) as i64)),
    {
        Vec2(self.0 - o.0, self.1 - o.1)
    }

    /// Dot product of two milli-vectors, itself in micro-units.
    pub fn dot(self, o: Vec2) -> (r: i64)
        requires
            vfits(self),
            vfits(o),
        ensures
            r == self.0 * o.0 + self.1 * o.1,
    {
        proof {
            assert(-PROD_BOUND <= self.0 * o.0 <= PROD_BOUND && -PROD_BOUND <= self.1 * o.1
                <= PROD_BOUND) by (nonlinear_arith)
                requires
                    vfits(self),
                    vfits(o),
            ;
        }
        self.0 * o.0 + self.1 * o.1
    }

    /// Squared length.
    pub fn len_sq(self) -> (r: i64)
        requires
            vfits(self),
        ensures
            r == vlen2(self),
            0 <= r <= 2 * PROD_BOUND,
    {
        proof {
            assert(0 <= self.0 * self.0 <= PROD_BOUND && 0 <= self.1 * self.1 <= PROD_BOUND)
                by (nonlinear_arith)
                requires
                    vfits(self),
            ;
        }
        self.0 * self.0 + self.1 * self.1
    }

    /// Rounded-down length.
    pub fn len(self) -> (r: i64)
        requires
            vfits(self),
        ensures
            r == vlen(self),
            0 <= r <= 3_000_000_000,
            r == 0 <==> self == (Vec2(0, 0)),
    {
        let sq = self.len_sq();
        let l = isqrt(sq as u64);
        proof {
            let ln = sqrt_spec(vlen2(self) as nat);
            assert(ln * ln <= 2 * PROD_BOUND) by {
                lemma_sqrt_spec(vlen2(self) as nat);
            }
            if ln > 3_000_000_000 {
                assert(3_000_000_000 * 3_000_000_000 < ln * ln) by (nonlinear_arith)
                    requires
                        ln > 3_000_000_000,
                ;
            }
            if self.0 == 0 && self.1 == 0 {
                assert(vlen2(self) == 0);
            }
            if ln == 0 {
                lemma_sqrt_spec(vlen2(self) as nat);
                assert(vlen2(self) < 1);
                assert(self.0 * self.0 >= 0 && self.1 * self.1 >= 0 && (self.0 != 0 ==> self.0
                    * self.0 >= 1) && (self.1 != 0 ==> self.1 * self.1 >= 1)) by (nonlinear_arith);
            }
        }
        l as i64
    }

    /// The left-pointing normal.
    pub fn left(self) -> (r: Vec2)
        requires
            vfits(self),
        ensures
            r == (Vec2((-self.1) as i64, self.0)),
    {
        Vec2(-self.1, self.0)
    }

    /// The right-pointing normal.
    pub fn right(self) -> (r: Vec2)
        requires
            vfits(self),
        ensures
            r == (Vec2(self.1, (-self.0) as i64)),
    {
        Vec2(self.1, -self.0)
    }

    /// Negation.
    pub fn neg(self) -> (r: Vec2)
        requires
            vfits(self),
        ensures
            r == (Vec2((-self.0) as i64, (-self.1) as i64)),
    {
        Vec2(-self.0, -self.1)
    }

    /// Scales by a milli-factor: each component becomes `c * f / 1000`.
    pub fn scale_m(self, f: i64) -> (r: Vec2)
        requires
            vfits(self),
            fits(f as int),
        ensures
            r == (Vec2(smul(self.0 as int, f as int) as i64, smul(self.1 as int, f as int) as i64)),
            sabs(r.0 as int) <= sabs(self.0 as int) * sabs(f as int) / 1000,
            sabs(r.1 as int) <= sabs(self.1 as int) * sabs(f as int) / 1000,
    {
        Vec2(mul_m(self.0, f), mul_m(self.1, f))
    }

    /// Componentwise milli-product, as in `v_max (*) v_fraction`.
    pub fn mul_v(self, o: Vec2) -> (r: Vec2)
        requires
            vfits(self),
            vfits(o),
        ensures
            r == (Vec2(smul(self.0 as int, o.0 as int) as i64, smul(self.1 as int, o.1 as int) as i64)),
            sabs(r.0 as int) <= sabs(self.0 as int) * sabs(o.0 as int) / 1000,
            sabs(r.1 as int) <= sabs(self.1 as int) * sabs(o.1 as int) / 1000,
    {
        Vec2(mul_m(self.0, o.0), mul_m(self.1, o.1))
    }

    /// Componentwise interpolation toward `target` with ratio `t` (in milli).
    pub fn lerp_v(self, target: Vec2, t: i64) -> (r: Vec2)
        requires
            vfits(self),
            vfits(target),
            -2000 <= t <= 2000,
        ensures
            r == (Vec2(
                slerp(self.0 as int, target.0 as int, t as int) as i64,
                slerp(self.1 as int, target.1 as int, t as int) as i64,
            )),
            sabs(r.0 as int) <= 5 * FX_BOUND,
            sabs(r.1 as int) <= 5 * FX_BOUND,
    {
        Vec2(lerp_m(self.0, target.0, t), lerp_m(self.1, target.1, t))
    }

    /// Whether this is the zero vector.
    pub fn is_zero(self) -> (r: bool)
        ensures
            r == (self == (Vec2(0, 0))),
    {
        self.0 == 0 && self.1 == 0
    }

    /// Distance to another point.
    pub fn distance(self, o: Vec2) -> (r: i64)
        requires
            fits(self.0 - o.0),
            fits(self.1 - o.1),
        ensures
            r == sqrt_spec(len2(self.0 - o.0, self.1 - o.1) as nat),
            0 <= r <= 3_000_000_000,
    {
        let d = Vec2(self.0 - o.0, self.1 - o.1);
        d.len()
    }

    /// Rescales the vector so its length becomes `s`, in the same direction;
    /// the zero vector stays zero.  Each component is `c * s / len`, truncated
    /// toward zero, so no component of the result exceeds `s`.
    pub fn normalize_to(self, s: i64) -> (r: Vec2)
        requires
            vfits(self),
            0 <= s,
            fits(s as int),
        ensures
            r == snormalize_to(self, s as int),
            sabs(r.0 as int) <= s,
            sabs(r.1 as int) <= s,
    {
        let l = self.len();
        if l == 0 {
            Vec2(0, 0)
        } else {
            proof {
                lemma_component_le_len(self);
                assert(-PROD_BOUND <= self.0 * s <= PROD_BOUND && -PROD_BOUND <= self.1 * s
                    <= PROD_BOUND) by (nonlinear_arith)
                    requires
                        vfits(self),
                        0 <= s <= FX_BOUND,
                ;
                lemma_scaled_component_bound(self.0 as int, s as int, l as int);
                lemma_scaled_component_bound(self.1 as int, s as int, l as int);
            }
            Vec2(div_t(self.0 * s, l), div_t(self.1 * s, l))
        }
    }
}

/// The rescaled vector `normalize_to` returns.
pub open spec fn snormalize_to(v: Vec2, s: int) -> Vec2 {
    let l = vlen(v);
    if l == 0 {
        Vec2(0, 0)
    } else {
        Vec2(tdiv(v.0 * s, l) as i64, tdiv(v.1 * s, l) as i64)
    }
}

/// `|c| <= l` and `s >= 0` give `|c * s / l| <= s`.
proof fn lemma_scaled_component_bound(c: int, s: int, l: int)
    requires
        sabs(c) <= l,
        0 <= s,
        0 < l,
    ensures
        sabs(tdiv(c * s, l)) <= s,
{
    assert(sabs(c * s) <= l * s) by (nonlinear_arith)
        requires
            sabs(c) <= l,
            0 <= s,
            0 < l,
    ;
    if c * s >= 0 {
        assert((c * s) / l <= s) by (nonlinear_arith)
            requires
                c * s <= l * s,
                0 < l,
                0 <= s,
        ;
        assert((c * s) / l >= 0) by (nonlinear_arith)
            requires
                c * s >= 0,
                0 < l,
        ;
    } else {
        assert((-(c * s)) / l <= s) by (nonlinear_arith)
            requires
                -(c * s) <= l * s,
                0 < l,
                0 <= s,
        ;
        assert((-(c * s)) / l >= 0) by (nonlinear_arith)
            requires
                -(c * s) >= 0,
                0 < l,
        ;
    }
}

} // verus!
