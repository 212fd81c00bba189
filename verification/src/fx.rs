//! Fixed-point arithmetic in milli-units.
//!
//! A stored value of 1000 stands for 1.0: one world unit, one second or one
//! radian.  A product of two milli-values is divided by 1000 again, with the
//! quotient truncated toward zero, so that multiplying plain quantities
//! keeps the milli scale.

use vstd::prelude::*;

verus! {

/// One whole unit in milli resolution.
pub const UNIT: i64 = 1000;

/// Bound on every quantity the simulation stores, so that any product of two
/// bounded values stays well inside `i64`.
pub const FX_BOUND: i64 = 2_000_000_000;

/// Bound on intermediate products: `FX_BOUND * FX_BOUND`.
pub const PROD_BOUND: i64 = 4_000_000_000_000_000_000;

/// Whether a value is within the simulation's working range.
pub open spec fn fits(x: int) -> bool {
    -FX_BOUND <= x <= FX_BOUND
}

/// Absolute value.
pub open spec fn sabs(x: int) -> int {
    if x >= 0 {
        x
    } else {
        -x
    }
}

/// The smaller of two values.
pub open spec fn smin(a: int, b: int) -> int {
    if a < b {
        a
    } else {
        b
    }
}

/// The greater of two values.
pub open spec fn smax(a: int, b: int) -> int {
    if a > b {
        a
    } else {
        b
    }
}

/// `x` limited to the interval `[lo, hi]`.
pub open spec fn sclamp(x: int, lo: int, hi: int) -> int {
    if x < lo {
        lo
    } else if x > hi {
        hi
    } else {
        x
    }
}

/// Division truncated toward zero, for a positive divisor: the rounding of
/// every quotient the simulation takes.
pub open spec fn tdiv(x: int, d: int) -> int {
    if x >= 0 {
        x / d
    } else {
        -((-x) / d)
    }
}

/// Division by 1000 truncated toward zero, the rounding rule of every
/// milli-scaled product in this crate.
pub open spec fn tdiv_m(x: int) -> int {
    if x >= 0 {
        x / 1000
    } else {
        -((-x) / 1000)
    }
}

/// The integer square root, defined by counting up.
pub open spec fn sqrt_spec(n: nat) -> nat
    decreases n,
{
    if n == 0 {
        0
    } else {
        let r = sqrt_spec((n - 1) as nat);
        if (r + 1) * (r + 1) <= n {
            r + 1
        } else {
            r
        }
    }
}

/// `sqrt_spec` really is the rounded-down square root.
pub proof fn lemma_sqrt_spec(n: nat)
    ensures
        sqrt_spec(n) * sqrt_spec(n) <= n,
        n < (sqrt_spec(n) + 1) * (sqrt_spec(n) + 1),
    decreases n,
{
    if n > 0 {
        lemma_sqrt_spec((n - 1) as nat);
        let r = sqrt_spec((n - 1) as nat);
        assert(r * r <= n - 1 && n - 1 < (r + 1) * (r + 1));
        if (r + 1) * (r + 1) <= n {
            assert(sqrt_spec(n) == r + 1);
            assert(n < ((r + 1) + 1) * ((r + 1) + 1)) by (nonlinear_arith)
                requires
                    (n - 1) < (r + 1) * (r + 1),
            ;
        } else {
            assert(sqrt_spec(n) == r);
            assert(r * r <= n && n < (r + 1) * (r + 1));
        }
    } else {
        assert(sqrt_spec(n) == 0);
        assert((sqrt_spec(n) + 1) * (sqrt_spec(n) + 1) == 1) by (nonlinear_arith)
            requires
                sqrt_spec(n) == 0,
        ;
    }
}

/// Any value with the square-root property is `sqrt_spec`.
pub proof fn lemma_sqrt_unique(n: nat, r: nat)
    requires
        r * r <= n,
        n < (r + 1) * (r + 1),
    ensures
        r == sqrt_spec(n),
{
    lemma_sqrt_spec(n);
    let s = sqrt_spec(n);
    if r < s {
        assert((r + 1) * (r + 1) <= s * s) by (nonlinear_arith)
            requires
                r + 1 <= s,
        ;
    }
    if s < r {
        assert((s + 1) * (s + 1) <= r * r) by (nonlinear_arith)
            requires
                s + 1 <= r,
        ;
    }
}

/// Milli-scaled product: `a * b / 1000`, truncated toward zero.
pub open spec fn smul(a: int, b: int) -> int {
    tdiv_m(a * b)
}

/// Interpolation from `a` (at `t == 0`) to `b` (at `t == 1000`), computed as
/// the convex combination `(a*(1000-t) + b*t) / 1000` in one rounding step.
pub open spec fn slerp(a: int, b: int, t: int) -> int {
    tdiv_m(a * (1000 - t) + b * t)
}

/// Squared length of a 2d quantity.
pub open spec fn len2(x: int, y: int) -> int {
    x * x + y * y
}

/// Truncation toward zero never grows the magnitude and keeps the sign.
pub proof fn lemma_tdiv_shrinks(x: int)
    ensures
        1000 * sabs(tdiv_m(x)) <= sabs(x),
        sabs(tdiv_m(x)) <= sabs(x),
        x >= 0 ==> tdiv_m(x) >= 0,
        x <= 0 ==> tdiv_m(x) <= 0,
{
    if x >= 0 {
        assert(1000 * (x / 1000) <= x) by (nonlinear_arith)
            requires
                x >= 0,
        ;
    } else {
        assert(1000 * ((-x) / 1000) <= -x) by (nonlinear_arith)
            requires
                -x >= 0,
        ;
    }
}

/// An interpolation with a ratio in `[0, 1]` stays between its endpoints.
pub proof fn lemma_lerp_between(a: int, b: int, t: int)
    requires
        0 <= t <= 1000,
    ensures
        smin(a, b) <= slerp(a, b, t) <= smax(a, b),
{
    let w = a * (1000 - t) + b * t;
    let lo = smin(a, b);
    let hi = smax(a, b);
    assert(1000 * lo <= w <= 1000 * hi) by (nonlinear_arith)
        requires
            0 <= t <= 1000,
            lo <= a <= hi,
            lo <= b <= hi,
            w == a * (1000 - t) + b * t,
    ;
    lemma_tdiv_in_range(w, lo, hi);
}

/// If `1000*lo <= x <= 1000*hi` with `lo <= 0 <= hi` not required, the
/// truncated milli-quotient stays in `[lo, hi]`.
pub proof fn lemma_tdiv_in_range(x: int, lo: int, hi: int)
    requires
        1000 * lo <= x <= 1000 * hi,
    ensures
        lo <= tdiv_m(x) <= hi,
{
    if x >= 0 {
        assert(lo <= x / 1000 <= hi) by (nonlinear_arith)
            requires
                x >= 0,
                1000 * lo <= x <= 1000 * hi,
        ;
    } else {
        assert(lo <= -((-x) / 1000) <= hi) by (nonlinear_arith)
            requires
                x < 0,
                1000 * lo <= x <= 1000 * hi,
        ;
    }
}

/// Weighted mean-square inequality: the square of a convex combination is at
/// most the combination of the squares.
pub proof fn lemma_jensen_sq(a: int, b: int, t: int)
    requires
        0 <= t <= 1000,
    ensures
        (a * (1000 - t) + b * t) * (a * (1000 - t) + b * t) <= 1000 * ((1000 - t) * (a * a) + t
            * (b * b)),
{
    assert((a * (1000 - t) + b * t) * (a * (1000 - t) + b * t) <= 1000 * ((1000 - t) * (a * a) + t
        * (b * b))) by (nonlinear_arith)
        requires
            0 <= t <= 1000,
    ;
}

/// A milli-product of two values within `[0, 1]` stays within `[0, 1]`.
pub proof fn lemma_smul_unit(a: int, b: int)
    requires
        0 <= a <= 1000,
        0 <= b <= 1000,
    ensures
        0 <= smul(a, b) <= 1000,
{
    assert(0 <= a * b <= 1_000_000) by (nonlinear_arith)
        requires
            0 <= a <= 1000,
            0 <= b <= 1000,
    ;
    lemma_tdiv_in_range(a * b, 0, 1000);
}

/// A componentwise interpolation with ratio in `[0, 1]` never grows the
/// squared length beyond the longer of its endpoints.
pub proof fn lemma_lerp_len_sq(vx: int, vy: int, tx: int, ty: int, t: int)
    requires
        0 <= t <= 1000,
    ensures
        len2(slerp(vx, tx, t), slerp(vy, ty, t)) <= smax(len2(vx, vy), len2(tx, ty)),
{
    let x = slerp(vx, tx, t);
    let y = slerp(vy, ty, t);
    let wx = vx * (1000 - t) + tx * t;
    let wy = vy * (1000 - t) + ty * t;
    lemma_tdiv_shrinks(wx);
    lemma_tdiv_shrinks(wy);
    assert(1000000 * (x * x) <= wx * wx && 1000000 * (y * y) <= wy * wy) by (nonlinear_arith)
        requires
            1000 * sabs(x) <= sabs(wx),
            1000 * sabs(y) <= sabs(wy),
            sabs(x) >= 0,
            sabs(y) >= 0,
            x == sabs(x) || x == -sabs(x),
            wx == sabs(wx) || wx == -sabs(wx),
            y == sabs(y) || y == -sabs(y),
            wy == sabs(wy) || wy == -sabs(wy),
    ;
    lemma_jensen_sq(vx, tx, t);
    lemma_jensen_sq(vy, ty, t);
    let m = smax(len2(vx, vy), len2(tx, ty));
    assert(1000 * ((1000 - t) * (vx * vx) + t * (tx * tx)) + 1000 * ((1000 - t) * (vy * vy) + t * (
    ty * ty)) <= 1000000 * m) by (nonlinear_arith)
        requires
            0 <= t <= 1000,
            vx * vx + vy * vy <= m,
            tx * tx + ty * ty <= m,
    ;
    assert(len2(x, y) <= m) by (nonlinear_arith)
        requires
            1000000 * (x * x) <= wx * wx,
            1000000 * (y * y) <= wy * wy,
            wx * wx + wy * wy <= 1000000 * m,
            len2(x, y) == x * x + y * y,
    ;
}

/// Scaling a unit vector whose squared length is within one by a length
/// keeps the squared length within the square of that length.
pub proof fn lemma_scaled_unit_len_sq(c: int, s: int, lt: int)
    requires
        c * c + s * s <= 1_000_000,
        0 <= lt,
    ensures
        len2(smul(c, lt), smul(s, lt)) <= lt * lt,
{
    let x = smul(c, lt);
    let y = smul(s, lt);
    lemma_tdiv_shrinks(c * lt);
    lemma_tdiv_shrinks(s * lt);
    assert(1000000 * (x * x) <= (c * lt) * (c * lt) && 1000000 * (y * y) <= (s * lt) * (s * lt))
        by (nonlinear_arith)
        requires
            1000 * sabs(x) <= sabs(c * lt),
            1000 * sabs(y) <= sabs(s * lt),
            x == sabs(x) || x == -sabs(x),
            y == sabs(y) || y == -sabs(y),
    ;
    assert((c * lt) * (c * lt) + (s * lt) * (s * lt) <= 1000000 * (lt * lt)) by (nonlinear_arith)
        requires
            c * c + s * s <= 1_000_000,
            0 <= lt,
    ;
    assert(len2(x, y) <= lt * lt) by (nonlinear_arith)
        requires
            1000000 * (x * x) <= (c * lt) * (c * lt),
            1000000 * (y * y) <= (s * lt) * (s * lt),
            (c * lt) * (c * lt) + (s * lt) * (s * lt) <= 1000000 * (lt * lt),
            len2(x, y) == x * x + y * y,
    ;
}

/// Absolute value.
pub fn abs_i(x: i64) -> (r: i64)
    requires
        x > i64::MIN,
    ensures
        r == sabs(x as int),
{
    if x >= 0 {
        x
    } else {
        -x
    }
}

/// The smaller of two values.
pub fn min_i(a: i64, b: i64) -> (r: i64)
    ensures
        r == smin(a as int, b as int),
{
    if a < b {
        a
    } else {
        b
    }
}

/// The greater of two values.
pub fn max_i(a: i64, b: i64) -> (r: i64)
    ensures
        r == smax(a as int, b as int),
{
    if a > b {
        a
    } else {
        b
    }
}

/// `x` limited to `[lo, hi]`.
pub fn clamp_i(x: i64, lo: i64, hi: i64) -> (r: i64)
    requires
        lo <= hi,
    ensures
        r == sclamp(x as int, lo as int, hi as int),
{
    if x < lo {
        lo
    } else if x > hi {
        hi
    } else {
        x
    }
}

/// Divides by 1000, truncating toward zero.
pub fn div_m(x: i64) -> (r: i64)
    requires
        -PROD_BOUND <= x <= PROD_BOUND,
    ensures
        r == tdiv_m(x as int),
{
    if x >= 0 {
        let q: u64 = (x as u64) / 1000;
        q as i64
    } else {
        let q: u64 = ((-x) as u64) / 1000;
        -(q as i64)
    }
}

/// Milli-scaled product of two bounded values.
pub fn mul_m(a: i64, b: i64) -> (r: i64)
    requires
        fits(a as int),
        fits(b as int),
    ensures
        r == smul(a as int, b as int),
        sabs(r as int) <= sabs(a as int) * sabs(b as int) / 1000,
{
    proof {
        assert(-PROD_BOUND <= a * b <= PROD_BOUND) by (nonlinear_arith)
            requires
                fits(a as int),
                fits(b as int),
        ;
        lemma_tdiv_shrinks((a * b) as int);
        assert(sabs((a * b) as int) == sabs(a as int) * sabs(b as int)) by (nonlinear_arith);
        assert(sabs(tdiv_m((a * b) as int)) <= sabs((a * b) as int) / 1000) by (nonlinear_arith)
            requires
                1000 * sabs(tdiv_m((a * b) as int)) <= sabs((a * b) as int),
        ;
    }
    let p: i64 = a * b;
    div_m(p)
}

/// Interpolates from `a` (at `t == 0`) to `b` (at `t == 1000`); ratios outside
/// `[0, 1000]` extrapolate, exactly as the engine's float interpolation does.
pub fn lerp_m(a: i64, b: i64, t: i64) -> (r: i64)
    requires
        fits(a as int),
        fits(b as int),
        -2000 <= t <= 2000,
    ensures
        r == slerp(a as int, b as int, t as int),
        sabs(r as int) <= 5 * FX_BOUND,
{
    proof {
        assert(-3000 * FX_BOUND <= a * (1000 - t) <= 3000 * FX_BOUND && -2000 * FX_BOUND <= b * t
            <= 2000 * FX_BOUND) by (nonlinear_arith)
            requires
                fits(a as int),
                fits(b as int),
                -2000 <= t <= 2000,
        ;
        lemma_tdiv_shrinks((a * (1000 - t) + b * t) as int);
        lemma_tdiv_in_range((a * (1000 - t) + b * t) as int, -5 * FX_BOUND, 5 * FX_BOUND);
    }
    let w: i64 = a * (1000 - t) + b * t;
    div_m(w)
}

/// Divides, truncating toward zero.
pub fn div_t(x: i64, d: i64) -> (r: i64)
    requires
        x > i64::MIN,
        d > 0,
    ensures
        r == tdiv(x as int, d as int),
        sabs(r as int) <= sabs(x as int),
{
    proof {
        lemma_div_shrinks(sabs(x as int) as nat, d as nat);
    }
    if x >= 0 {
        let q: u64 = (x as u64) / (d as u64);
        q as i64
    } else {
        let q: u64 = ((-x) as u64) / (d as u64);
        -(q as i64)
    }
}

/// Dividing a natural number by a positive number never grows it.
pub proof fn lemma_div_shrinks(x: nat, d: nat)
    requires
        d > 0,
    ensures
        x / d <= x,
{
    assert(x / d <= x) by (nonlinear_arith)
        requires
            d > 0,
    ;
}

/// Integer square root: the greatest `r` with `r * r <= x`.
pub fn isqrt(x: u64) -> (r: u64)
    ensures
        r * r <= x,
        x < (r + 1) * (r + 1),
        r == sqrt_spec(x as nat),
{
    if x == 0 {
        return 0;
    }
    let mut lo: u64 = 0;
    let mut hi: u64 = 4_294_967_296;
    proof {
        assert((4_294_967_296 as int) * (4_294_967_296 as int) > u64::MAX as int) by (nonlinear_arith);
    }
    while lo + 1 < hi
        invariant
            lo < hi <= 4_294_967_296,
            lo * lo <= x,
            x < hi * hi,
        decreases hi - lo,
    {
        let mid: u64 = lo + (hi - lo) / 2;
        proof {
            assert(mid * mid < u64::MAX) by (nonlinear_arith)
                requires
                    mid < 4_294_967_296,
            ;
        }
        if mid * mid <= x {
            lo = mid;
        } else {
            hi = mid;
        }
    }
    proof {
        lemma_sqrt_unique(x as nat, lo as nat);
    }
    lo
}

} // verus!
