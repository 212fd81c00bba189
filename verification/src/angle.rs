//! Angles in milli-radians, normalized to `[-PI_M, PI_M)`.
//!
//! The direction of a vector is taken with a rational arctangent
//! approximation; a unit vector for an angle is built from a rational cosine
//! approximation and the exact square root of what remains, so that a unit
//! vector never has squared length above one.

use vstd::prelude::*;
use crate::fx::{
    fits, sabs, tdiv, tdiv_m, sqrt_spec, lemma_sqrt_spec, lemma_tdiv_shrinks, mul_m, div_m,
    PROD_BOUND,
};
use crate::vec::{Vec2, vfits, vlen2};

verus! {

/// Half a turn, in milli-radians.
pub const PI_M: i64 = 3142;

/// A full turn, in milli-radians.
pub const TAU_M: i64 = 6284;

/// A quarter turn, in milli-radians.
pub const HALF_PI_M: i64 = 1571;

/// `PI_M * PI_M`, the square of half a turn.
pub const PISQ: i64 = 3142 * 3142;

/// An angle in milli-radians.
#[derive(Clone, Copy, Debug, PartialEq, Eq, Structural)]
pub struct Angle(pub i64);

/// The representative of `a` in `[-PI_M, PI_M)`.
pub open spec fn snorm(a: int) -> int {
    (a + PI_M) % (TAU_M as int) - PI_M
}

/// The representative congruent to `a` that lies within half a turn of the
/// normalized `target`.
pub open spec fn salign(a: int, target: int) -> int {
    let n = snorm(a);
    let tn = snorm(target);
    if n - tn > PI_M {
        n - TAU_M
    } else if n - tn < -PI_M {
        n + TAU_M
    } else {
        n
    }
}

/// The arctangent of `z / 1000` for `z` in `[0, 1000]`, in milli-radians.
pub open spec fn satan_frac(z: int) -> int {
    tdiv_m(785 * z + tdiv_m(273 * (z * (1000 - z))))
}

/// The direction of the vector `(x, y)`, in `[-PI_M, PI_M]`; zero for the
/// zero vector.
pub open spec fn satan2(y: int, x: int) -> int {
    if x == 0 && y == 0 {
        0
    } else {
        let ax = sabs(x);
        let ay = sabs(y);
        let base = if ax >= ay {
            satan_frac(tdiv(ay * 1000, ax))
        } else {
            HALF_PI_M - satan_frac(tdiv(ax * 1000, ay))
        };
        let r0 = if x >= 0 {
            base
        } else {
            PI_M - base
        };
        if y < 0 {
            -r0
        } else {
            r0
        }
    }
}

/// The cosine of `v` milli-radians for `v` in `[0, HALF_PI_M]`, in milli.
pub open spec fn scos_core(v: int) -> int {
    ((PISQ - 4 * (v * v)) * 1000) / (PISQ + v * v)
}

/// The cosine of an angle, in milli.
pub open spec fn scos(a: int) -> int {
    let m = sabs(snorm(a));
    if m <= HALF_PI_M {
        scos_core(m)
    } else {
        -scos_core(PI_M - m)
    }
}

/// The sine of an angle, in milli: its magnitude completes the cosine to a
/// unit vector, its sign follows the normalized angle.
pub open spec fn ssin(a: int) -> int {
    let c = scos(a);
    let mag = sqrt_spec((1_000_000 - c * c) as nat) as int;
    if snorm(a) >= 0 {
        mag
    } else {
        -mag
    }
}

/// The unit vector of an angle, in milli.
pub open spec fn sunit(a: int) -> Vec2 {
    Vec2(scos(a) as i64, ssin(a) as i64)
}

/// The cosine is within one, and exactly one at angle zero.
pub proof fn lemma_scos_core_bounds(v: int)
    requires
        0 <= v <= HALF_PI_M,
    ensures
        0 <= scos_core(v) <= 1000,
        v == 0 ==> scos_core(v) == 1000,
{
    let num = (PISQ - 4 * (v * v)) * 1000;
    let den = PISQ + v * v;
    assert(0 <= num && num <= 1000 * den && den > 0) by (nonlinear_arith)
        requires
            0 <= v <= HALF_PI_M,
            num == (PISQ - 4 * (v * v)) * 1000,
            den == PISQ + v * v,
    ;
    assert(0 <= num / den <= 1000) by (nonlinear_arith)
        requires
            0 <= num <= 1000 * den,
            den > 0,
    ;
    if v == 0 {
        assert(scos_core(0) == (PISQ * 1000) / (PISQ as int));
        assert((PISQ * 1000) / (PISQ as int) == 1000) by (nonlinear_arith);
    }
}

/// The cosine of any angle is within one.
pub proof fn lemma_scos_bounds(a: int)
    ensures
        -1000 <= scos(a) <= 1000,
{
    lemma_norm_range(a);
    let m = sabs(snorm(a));
    if m <= HALF_PI_M {
        lemma_scos_core_bounds(m);
    } else {
        lemma_scos_core_bounds(PI_M - m);
    }
}

/// A unit vector never has squared length above one, and its components are
/// within one.
pub proof fn lemma_sunit_bounds(a: int)
    ensures
        vlen2(sunit(a)) <= 1_000_000,
        sabs(sunit(a).0 as int) <= 1000,
        sabs(sunit(a).1 as int) <= 1000,
{
    lemma_scos_bounds(a);
    let c = scos(a);
    assert(0 <= c * c <= 1_000_000) by (nonlinear_arith)
        requires
            -1000 <= c <= 1000,
    ;
    let rem = (1_000_000 - c * c) as nat;
    lemma_sqrt_spec(rem);
    let mag = sqrt_spec(rem) as int;
    assert(mag * mag <= 1_000_000 - c * c);
    if mag > 1000 {
        assert(1000 * 1000 < mag * mag) by (nonlinear_arith)
            requires
                mag > 1000,
        ;
    }
    assert((-mag) * (-mag) == mag * mag) by (nonlinear_arith);
}

/// The sine of any angle is within one.
pub proof fn lemma_ssin_bounds(a: int)
    ensures
        -1000 <= ssin(a) <= 1000,
{
    lemma_scos_bounds(a);
    let c = scos(a);
    assert(0 <= c * c <= 1_000_000) by (nonlinear_arith)
        requires
            -1000 <= c <= 1000,
    ;
    let rem = (1_000_000 - c * c) as nat;
    lemma_sqrt_spec(rem);
    let mag = sqrt_spec(rem) as int;
    if mag > 1000 {
        assert(1000 * 1000 < mag * mag) by (nonlinear_arith)
            requires
                mag > 1000,
        ;
    }
}

/// The normalized representative lies in `[-PI_M, PI_M)`.
pub proof fn lemma_norm_range(a: int)
    ensures
        -PI_M <= snorm(a) < PI_M,
        (-PI_M <= a < PI_M) ==> snorm(a) == a,
{
    assert(0 <= (a + PI_M) % (TAU_M as int) < TAU_M) by (nonlinear_arith)
        requires
            TAU_M > 0,
    ;
    if -PI_M <= a < PI_M {
        assert((a + PI_M) % (TAU_M as int) == a + PI_M) by (nonlinear_arith)
            requires
                0 <= a + PI_M < TAU_M,
        ;
    }
}

impl Angle {
    /// The zero angle.
    pub fn zero() -> (r: Angle)
        ensures
            r == (Angle(0)),
    {
        Angle(0)
    }

    /// The representative of this angle in `[-PI_M, PI_M)`.
    pub fn normalize(self) -> (r: Angle)
        requires
            -PROD_BOUND <= self.0 <= PROD_BOUND,
        ensures
            r.0 == snorm(self.0 as int),
            -PI_M <= r.0 < PI_M,
    {
        proof {
            lemma_norm_range(self.0 as int);
        }
        let m = (self.0 + PI_M).checked_rem_euclid(TAU_M);
        match m {
            Some(v) => Angle(v - PI_M),
            None => Angle(0),
        }
    }

    /// Replaces this angle by the congruent value within half a turn of the
    /// normalized `target`, so that subtracting the target yields the
    /// smallest directional difference.
    pub fn align_with(&mut self, target: Angle)
        requires
            -PROD_BOUND <= old(self).0 <= PROD_BOUND,
            -PROD_BOUND <= target.0 <= PROD_BOUND,
        ensures
            final(self).0 == salign(old(self).0 as int, target.0 as int),
            sabs(final(self).0 as int - snorm(target.0 as int)) <= PI_M,
            -TAU_M <= final(self).0 <= TAU_M,
    {
        proof {
            lemma_norm_range(old(self).0 as int);
            lemma_norm_range(target.0 as int);
        }
        let n = self.normalize();
        let t = target.normalize();
        let d = n.0 - t.0;
        if d > PI_M {
            *self = Angle(n.0 - TAU_M);
        } else if d < -PI_M {
            *self = Angle(n.0 + TAU_M);
        } else {
            *self = n;
        }
    }

    /// The direction of a vector, in `[-PI_M, PI_M]`.
    pub fn from_vec(v: Vec2) -> (r: Angle)
        requires
            vfits(v),
        ensures
            r.0 == satan2(v.1 as int, v.0 as int),
            -PI_M <= r.0 <= PI_M,
            v.1 == 0 && v.0 >= 0 ==> r.0 == 0,
            v.1 > 0 ==> r.0 >= 0,
            v.1 < 0 ==> r.0 <= 0,
    {
        if v.0 == 0 && v.1 == 0 {
            return Angle(0);
        }
        let x = v.0;
        let y = v.1;
        let ax = if x >= 0 {
            x
        } else {
            -x
        };
        let ay = if y >= 0 {
            y
        } else {
            -y
        };
        let base: i64 = if ax >= ay {
            proof {
                lemma_ratio_in_unit(ay as int, ax as int);
            }
            let q: u64 = ((ay as u64) * 1000) / (ax as u64);
            atan_frac(q as i64)
        } else {
            proof {
                lemma_ratio_in_unit(ax as int, ay as int);
            }
            let q: u64 = ((ax as u64) * 1000) / (ay as u64);
            HALF_PI_M - atan_frac(q as i64)
        };
        let r0: i64 = if x >= 0 {
            base
        } else {
            PI_M - base
        };
        if y < 0 {
            Angle(-r0)
        } else {
            Angle(r0)
        }
    }

    /// The unit vector pointing along this angle, in milli.
    pub fn unit(self) -> (r: Vec2)
        requires
            -PROD_BOUND <= self.0 <= PROD_BOUND,
        ensures
            r == sunit(self.0 as int),
            vlen2(r) <= 1_000_000,
            sabs(r.0 as int) <= 1000,
            sabs(r.1 as int) <= 1000,
    {
        proof {
            lemma_norm_range(self.0 as int);
            lemma_sunit_bounds(self.0 as int);
        }
        let n = self.normalize();
        let m = if n.0 >= 0 {
            n.0
        } else {
            -n.0
        };
        let c: i64 = if m <= HALF_PI_M {
            cos_core(m)
        } else {
            -cos_core(PI_M - m)
        };
        proof {
            lemma_scos_bounds(self.0 as int);
            assert(0 <= c * c <= 1_000_000) by (nonlinear_arith)
                requires
                    -1000 <= c <= 1000,
        ;
        }
        let mag = crate::fx::isqrt((1_000_000 - c * c) as u64);
        proof {
            if mag > 1000 {
                assert(1000 * 1000 < mag * mag) by (nonlinear_arith)
                    requires
                        mag > 1000,
                ;
            }
        }
        let s: i64 = if n.0 >= 0 {
            mag as i64
        } else {
            -(mag as i64)
        };
        Vec2(c, s)
    }
}

/// The rotation of `v` by the angle `a`, with the milli sine and cosine.
pub open spec fn srotate(v: Vec2, a: int) -> Vec2 {
    let c = scos(a);
    let s = ssin(a);
    Vec2(
        (crate::fx::smul(c, v.0 as int) - crate::fx::smul(s, v.1 as int)) as i64,
        (crate::fx::smul(s, v.0 as int) + crate::fx::smul(c, v.1 as int)) as i64,
    )
}

impl Vec2 {
    /// Rotates the vector by the given angle.
    pub fn rotate(self, a: Angle) -> (r: Vec2)
        requires
            vfits(self),
            -PROD_BOUND <= a.0 <= PROD_BOUND,
            fits(sabs(self.0 as int) + sabs(self.1 as int)),
        ensures
            r == srotate(self, a.0 as int),
            sabs(r.0 as int) <= sabs(self.0 as int) + sabs(self.1 as int),
            sabs(r.1 as int) <= sabs(self.0 as int) + sabs(self.1 as int),
    {
        let u = a.unit();
        let c = u.0;
        let s = u.1;
        let cx = mul_m(c, self.0);
        let sy = mul_m(s, self.1);
        let sx = mul_m(s, self.0);
        let cy = mul_m(c, self.1);
        proof {
            lemma_scos_bounds(a.0 as int);
            lemma_ssin_bounds(a.0 as int);
            lemma_milli_product_shrinks(c as int, self.0 as int);
            lemma_milli_product_shrinks(s as int, self.1 as int);
            lemma_milli_product_shrinks(s as int, self.0 as int);
            lemma_milli_product_shrinks(c as int, self.1 as int);
        }
        Vec2(cx - sy, sx + cy)
    }
}

/// A milli-product with a factor within one never grows the other factor.
proof fn lemma_milli_product_shrinks(f: int, x: int)
    requires
        sabs(f) <= 1000,
    ensures
        sabs(crate::fx::smul(f, x)) <= sabs(x),
{
    lemma_tdiv_shrinks(f * x);
    assert(sabs(f * x) <= 1000 * sabs(x)) by (nonlinear_arith)
        requires
            sabs(f) <= 1000,
    ;
}

/// `0 <= a <= b`, `b > 0` give `a * 1000 / b <= 1000`.
proof fn lemma_ratio_in_unit(a: int, b: int)
    requires
        0 <= a <= b,
        0 < b,
    ensures
        0 <= (a * 1000) / b <= 1000,
        tdiv(a * 1000, b) == (a * 1000) / b,
{
    assert(0 <= a * 1000 <= b * 1000) by (nonlinear_arith)
        requires
            0 <= a <= b,
    ;
    assert(0 <= (a * 1000) / b <= 1000) by (nonlinear_arith)
        requires
            0 <= a * 1000 <= b * 1000,
            0 < b,
    ;
}

/// The arctangent of `z / 1000` for `z` in `[0, 1000]`, in milli-radians.
fn atan_frac(z: i64) -> (r: i64)
    requires
        0 <= z <= 1000,
    ensures
        r == satan_frac(z as int),
        0 <= r <= 860,
{
    proof {
        assert(0 <= z * (1000 - z) <= 250_000) by (nonlinear_arith)
            requires
                0 <= z <= 1000,
        ;
    }
    let p: i64 = z * (1000 - z);
    let q: i64 = div_m(273 * p);
    proof {
        lemma_tdiv_shrinks((273 * p) as int);
        assert(0 <= q <= 68_250);
        lemma_tdiv_shrinks((785 * z + q) as int);
    }
    div_m(785 * z + q)
}

/// The cosine of `v` milli-radians for `v` in `[0, HALF_PI_M]`, in milli.
fn cos_core(v: i64) -> (r: i64)
    requires
        0 <= v <= HALF_PI_M,
    ensures
        r == scos_core(v as int),
        0 <= r <= 1000,
{
    proof {
        lemma_scos_core_bounds(v as int);
        assert(0 <= v * v <= HALF_PI_M * HALF_PI_M) by (nonlinear_arith)
            requires
                0 <= v <= HALF_PI_M,
        ;
        assert(4 * (v * v) <= PISQ) by (nonlinear_arith)
            requires
                0 <= v <= HALF_PI_M,
        ;
    }
    let num: i64 = (PISQ - 4 * (v * v)) * 1000;
    let den: i64 = PISQ + v * v;
    let r: u64 = (num as u64) / (den as u64);
    r as i64
}

} // verus!
