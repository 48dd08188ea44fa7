//! Interpolating between two numbers.
//!
//! Interpolation is required to generate smooth noise.  All scalars are
//! fixed-point numbers with denominator [`SCALE`] (see [`crate::fixed`]):
//! an interpolation fraction of one half is `SCALE / 2`, and so on.

use vstd::arithmetic::div_mod::{
    lemma_div_is_ordered, lemma_div_multiples_vanish, lemma_div_pos_is_pos,
    lemma_fundamental_div_mod,
};
use vstd::arithmetic::mul::{lemma_mul_inequality, lemma_mul_nonnegative};
use vstd::math::{max, min};
use vstd::prelude::*;

use crate::fixed::{rem_scale, SCALE, VAL_LIMIT};

verus! {

/// Scalars the interpolators accept: magnitude strictly under
/// [`VAL_LIMIT`], so differences of two operands still fit in an `i64`.
pub open spec fn in_val_range(n: int) -> bool {
    -(VAL_LIMIT as int) < n < VAL_LIMIT as int
}

/// The blend of `a` and `b` at the fraction `percent / SCALE`, rounded
/// toward `a`: exactly `a` at zero, exactly `b` at `SCALE`, and never
/// outside the interval between the two.
pub open spec fn lerp(a: int, b: int, percent: int) -> int {
    if b >= a {
        a + (b - a) * percent / (SCALE as int)
    } else {
        a - (a - b) * percent / (SCALE as int)
    }
}

/// The same blend before the division by [`SCALE`]: a numerator over the
/// denominator `SCALE * SCALE`.  [`lerp`] is this value divided by `SCALE`,
/// rounded toward `a`; the mirror law holds of it exactly.
pub open spec fn lerp_wide(a: int, b: int, percent: int) -> int {
    a * (SCALE as int) + (b - a) * percent
}

/// Interface to interpolate between two numbers.
///
/// `interpolate` blends the two numbers `a` and `b`; `percent` is a
/// fixed-point fraction between `0` and `SCALE` (both borders inclusive).
///
/// Laws every implementor carries, as proof obligations on its
/// mathematical model `spec_interpolate`:
///
/// * `interpolate(a, b, p)` never changes: the result is a function of the
///   arguments alone.
/// * `interpolate(a, b, 0) == a` and `interpolate(a, b, SCALE) == b`
///   ([`Interpolator::lemma_identity`]).
/// * The result stays between `a` and `b` ([`Interpolator::lemma_bounds`]).
pub trait Interpolator: Sized {
    /// The mathematical model of this strategy: `interpolate` returns
    /// exactly this value.
    spec fn spec_interpolate(&self, a: int, b: int, percent: int) -> int;

    /// At fraction zero the blend is `a`; at fraction one it is `b`.
    proof fn lemma_identity(&self, a: int, b: int)
        requires
            in_val_range(a),
            in_val_range(b),
        ensures
            self.spec_interpolate(a, b, 0) == a,
            self.spec_interpolate(a, b, SCALE as int) == b,
    ;

    /// The blend never leaves the interval between `a` and `b`.
    proof fn lemma_bounds(&self, a: int, b: int, percent: int)
        requires
            in_val_range(a),
            in_val_range(b),
            0 <= percent <= SCALE,
        ensures
            min(a, b) <= self.spec_interpolate(a, b, percent) <= max(a, b),
    ;

    /// Interpolates between the two numbers `a` and `b`.
    fn interpolate(&self, a: i64, b: i64, percent: i64) -> (r: i64)
        requires
            in_val_range(a as int),
            in_val_range(b as int),
            0 <= percent <= SCALE,
        ensures
            r == self.spec_interpolate(a as int, b as int, percent as int),
    ;
}

/// The quotient `(d * percent) / SCALE` stays between `0` and `d` for a
/// nonnegative `d` and a fraction in range.
proof fn lemma_scaled_fraction_bounds(d: int, percent: int)
    requires
        0 <= d,
        0 <= percent <= SCALE,
    ensures
        0 <= d * percent / (SCALE as int) <= d,
{
    lemma_mul_nonnegative(d, percent);
    lemma_div_pos_is_pos(d * percent, SCALE as int);
    lemma_mul_inequality(percent, SCALE as int, d);
    lemma_div_is_ordered(d * percent, d * (SCALE as int), SCALE as int);
    lemma_div_multiples_vanish(d, SCALE as int);
    assert(d * percent <= (SCALE as int) * d) by (nonlinear_arith)
        requires
            percent <= SCALE as int,
            0 <= d,
    ;
}

/// Blends `a` and `b` at `percent / SCALE` in exact integer arithmetic.
fn lerp_fixed(a: i64, b: i64, percent: i64) -> (r: i64)
    requires
        in_val_range(a as int),
        in_val_range(b as int),
        0 <= percent <= SCALE,
    ensures
        r == lerp(a as int, b as int, percent as int),
        min(a as int, b as int) <= r <= max(a as int, b as int),
{
    if b >= a {
        let d = b - a;
        proof {
            assert(0 <= (d as int) * (percent as int) <= 0x8000000000000000 * 0x40000000)
                by (nonlinear_arith)
                requires
                    0 <= d <= 0x8000000000000000i128,
                    0 <= percent <= 0x40000000,
            ;
            lemma_scaled_fraction_bounds(d as int, percent as int);
        }
        let wide: i128 = (d as i128) * (percent as i128);
        let q = wide / (SCALE as i128);
        a + (q as i64)
    } else {
        let d = a - b;
        proof {
            assert(0 <= (d as int) * (percent as int) <= 0x8000000000000000 * 0x40000000)
                by (nonlinear_arith)
                requires
                    0 <= d <= 0x8000000000000000i128,
                    0 <= percent <= 0x40000000,
            ;
            lemma_scaled_fraction_bounds(d as int, percent as int);
        }
        let wide: i128 = (d as i128) * (percent as i128);
        let q = wide / (SCALE as i128);
        a - (q as i64)
    }
}

/// Interpolator that interpolates linear between `a` and `b`.
///
/// This means that `interpolate(a, b, p)` is `a * (1 - p) + b * p` over the
/// represented fractions, rounded toward `a`.
pub struct LinearInterpolator;

impl Interpolator for LinearInterpolator {
    open spec fn spec_interpolate(&self, a: int, b: int, percent: int) -> int {
        lerp(a, b, percent)
    }

    proof fn lemma_identity(&self, a: int, b: int) {
        lemma_lerp_identity(a, b);
    }

    proof fn lemma_bounds(&self, a: int, b: int, percent: int) {
        lemma_lerp_bounds(a, b, percent);
    }

    fn interpolate(&self, a: i64, b: i64, percent: i64) -> (r: i64) {
        lerp_fixed(a, b, percent)
    }
}

/// The blend is exactly `a` at fraction zero and exactly `b` at fraction
/// one.
pub proof fn lemma_lerp_identity(a: int, b: int)
    ensures
        lerp(a, b, 0) == a,
        lerp(a, b, SCALE as int) == b,
{
    if b >= a {
        lemma_div_multiples_vanish(b - a, SCALE as int);
        assert((b - a) * (SCALE as int) == (SCALE as int) * (b - a)) by (nonlinear_arith);
    } else {
        lemma_div_multiples_vanish(a - b, SCALE as int);
        assert((a - b) * (SCALE as int) == (SCALE as int) * (a - b)) by (nonlinear_arith);
    }
}

/// The blend never leaves the interval between `a` and `b`.
pub proof fn lemma_lerp_bounds(a: int, b: int, percent: int)
    requires
        0 <= percent <= SCALE,
    ensures
        min(a, b) <= lerp(a, b, percent) <= max(a, b),
{
    if b >= a {
        lemma_scaled_fraction_bounds(b - a, percent);
    } else {
        lemma_scaled_fraction_bounds(a - b, percent);
    }
}

/// For `a <= b` the blend does not decrease as the fraction grows.
pub proof fn lemma_lerp_monotonic(a: int, b: int, p: int, q: int)
    requires
        a <= b,
        0 <= p <= q <= SCALE,
    ensures
        lerp(a, b, p) <= lerp(a, b, q),
{
    lemma_mul_inequality(p, q, b - a);
    assert((b - a) * p == p * (b - a)) by (nonlinear_arith);
    assert((b - a) * q == q * (b - a)) by (nonlinear_arith);
    lemma_div_is_ordered((b - a) * p, (b - a) * q, SCALE as int);
}

/// The mirror law, exact over the undivided blend: blending at `p` from the
/// one side and at `SCALE - p` from the other side adds up to `a + b`.
pub proof fn lemma_lerp_wide_mirror(a: int, b: int, percent: int)
    ensures
        lerp_wide(a, b, percent) + lerp_wide(a, b, (SCALE as int) - percent) == (a + b) * (
        SCALE as int),
{
    assert(a * (SCALE as int) + (b - a) * percent + (a * (SCALE as int) + (b - a) * ((
    SCALE as int) - percent)) == (a + b) * (SCALE as int)) by (nonlinear_arith);
}

/// The divided blend differs from the undivided one by less than one unit
/// of the fixed-point scale.
pub proof fn lemma_lerp_close_to_wide(a: int, b: int, percent: int)
    requires
        0 <= percent <= SCALE,
    ensures
        -(SCALE as int) < lerp_wide(a, b, percent) - (SCALE as int) * lerp(a, b, percent) < (
        SCALE as int),
{
    if b >= a {
        let n = (b - a) * percent;
        lemma_mul_nonnegative(b - a, percent);
        lemma_fundamental_div_mod(n, SCALE as int);
        assert((SCALE as int) * (a + n / (SCALE as int)) == (SCALE as int) * a + (SCALE as int) * (
        n / (SCALE as int))) by (nonlinear_arith);
        assert(a * (SCALE as int) == (SCALE as int) * a) by (nonlinear_arith);
    } else {
        let n = (a - b) * percent;
        lemma_mul_nonnegative(a - b, percent);
        lemma_fundamental_div_mod(n, SCALE as int);
        assert((SCALE as int) * (a - n / (SCALE as int)) == (SCALE as int) * a - (SCALE as int) * (
        n / (SCALE as int))) by (nonlinear_arith);
        assert(a * (SCALE as int) == (SCALE as int) * a) by (nonlinear_arith);
        assert((b - a) * percent == -((a - b) * percent)) by (nonlinear_arith);
    }
}

/// The mirror law for the divided blend: the two mirrored blends add up to
/// `a + b`, up to less than one fixed-point unit of rounding.
pub proof fn lemma_lerp_mirror(a: int, b: int, percent: int)
    requires
        0 <= percent <= SCALE,
    ensures
        -2 < lerp(a, b, percent) + lerp(a, b, (SCALE as int) - percent) - (a + b) < 2,
{
    lemma_lerp_wide_mirror(a, b, percent);
    lemma_lerp_close_to_wide(a, b, percent);
    lemma_lerp_close_to_wide(a, b, (SCALE as int) - percent);
    let s1 = lerp(a, b, percent);
    let s2 = lerp(a, b, (SCALE as int) - percent);
    assert((SCALE as int) * s1 + (SCALE as int) * s2 == (SCALE as int) * (s1 + s2))
        by (nonlinear_arith);
    assert((a + b) * (SCALE as int) == (SCALE as int) * (a + b)) by (nonlinear_arith);
    assert(-2 < s1 + s2 - (a + b) < 2) by (nonlinear_arith)
        requires
            -2 * (SCALE as int) < (SCALE as int) * (s1 + s2) - (SCALE as int) * (a + b) < 2 * (
            SCALE as int),
            SCALE == 1073741824,
    ;
}

/// The cubic `p * p * (3 * SCALE - 2 * p)`: the numerator (over the
/// denominator `SCALE^2`) of the smoothstep curve `3p^2 - 2p^3`.
pub open spec fn smooth_cubic(p: int) -> int {
    p * p * (3 * (SCALE as int) - 2 * p)
}

/// The smoothstep remapping of an interpolation fraction: `3p^2 - 2p^3`
/// over the represented fractions.  The upper half is evaluated by
/// reflecting the lower half, so the remap satisfies the mirror law
/// `smooth_remap(p) + smooth_remap(SCALE - p) == SCALE` exactly.
pub open spec fn smooth_remap(p: int) -> int {
    let s = SCALE as int;
    if 2 * p <= s {
        smooth_cubic(p) / (s * s)
    } else {
        s - smooth_cubic(s - p) / (s * s)
    }
}

/// On the lower half of its domain the smoothstep numerator stays between
/// zero and half of `SCALE^3`.
proof fn lemma_smooth_cubic_half_bounds(p: int)
    requires
        0 <= 2 * p <= SCALE,
    ensures
        0 <= smooth_cubic(p),
        smooth_cubic(p) <= (SCALE as int) * (SCALE as int) * (SCALE as int) / 2,
{
    let s = SCALE as int;
    assert(0 <= p * p * (3 * s - 2 * p) && 2 * (p * p * (3 * s - 2 * p)) <= s * s * s)
        by (nonlinear_arith)
        requires
            0 <= 2 * p <= s,
            s == SCALE as int,
            SCALE == 1073741824,
    ;
}

/// The smoothstep numerator does not decrease on `[0, SCALE]`.
proof fn lemma_smooth_cubic_monotonic(p: int, q: int)
    requires
        0 <= p <= q <= SCALE,
    ensures
        smooth_cubic(p) <= smooth_cubic(q),
{
    let s = SCALE as int;
    assert(q * q * (3 * s - 2 * q) - p * p * (3 * s - 2 * p) == (q - p) * (3 * s * (q + p) - 2 * (q
        * q + p * q + p * p))) by (nonlinear_arith);
    assert(p * p <= s * p && p * q <= s * p && q * q <= s * q && s * p <= s * q)
        by (nonlinear_arith)
        requires
            0 <= p <= q <= s,
    ;
    assert(3 * s * (q + p) - 2 * (q * q + p * q + p * p) >= 0) by (nonlinear_arith)
        requires
            p * p <= s * p,
            p * q <= s * p,
            q * q <= s * q,
            s * p <= s * q,
    ;
    assert((q - p) * (3 * s * (q + p) - 2 * (q * q + p * q + p * p)) >= 0) by (nonlinear_arith)
        requires
            0 <= q - p,
            0 <= 3 * s * (q + p) - 2 * (q * q + p * q + p * p),
    ;
}

/// Computes [`smooth_cubic`]` / SCALE^2` for a fraction in the lower half.
fn smooth_half_fixed(p: i64) -> (r: i64)
    requires
        0 <= 2 * p <= SCALE,
    ensures
        r == smooth_cubic(p as int) / ((SCALE as int) * (SCALE as int)),
        0 <= 2 * r <= SCALE,
{
    let s2: i128 = (SCALE as i128) * (SCALE as i128);
    let pw = p as i128;
    proof {
        lemma_smooth_cubic_half_bounds(p as int);
        assert(pw * pw * (3 * (SCALE as i128) - 2 * pw) == smooth_cubic(p as int));
        assert((SCALE as int) * (SCALE as int) * (SCALE as int) / 2 < 0x40000000000000000000000000)
            by (nonlinear_arith)
            requires
                SCALE == 1073741824,
        ;
        assert(0 <= pw * pw <= 0x10000000000000000) by (nonlinear_arith)
            requires
                0 <= pw <= 0x100000000i128,
        ;
    }
    let c: i128 = pw * pw * (3 * (SCALE as i128) - 2 * pw);
    let q = c / s2;
    proof {
        let s = SCALE as int;
        lemma_div_pos_is_pos(c as int, s * s);
        lemma_div_is_ordered(c as int, s * s * s / 2, s * s);
        assert(s * s * s / 2 == (s / 2) * (s * s)) by (nonlinear_arith)
            requires
                s == SCALE as int,
                SCALE == 1073741824,
        ;
        lemma_div_multiples_vanish(s / 2, s * s);
        assert((s / 2) * (s * s) == (s * s) * (s / 2)) by (nonlinear_arith);
    }
    q as i64
}

/// The smoothstep remap of `percent`, exact over the fixed-point fractions.
fn smooth_remap_fixed(percent: i64) -> (r: i64)
    requires
        0 <= percent <= SCALE,
    ensures
        r == smooth_remap(percent as int),
        0 <= r <= SCALE,
{
    if 2 * percent <= SCALE {
        smooth_half_fixed(percent)
    } else {
        SCALE - smooth_half_fixed(SCALE - percent)
    }
}

/// The smoothstep remap fixes both endpoints.
pub proof fn lemma_smooth_remap_identity()
    ensures
        smooth_remap(0) == 0,
        smooth_remap(SCALE as int) == SCALE as int,
{
    let s = SCALE as int;
    assert(smooth_cubic(0) == 0) by (nonlinear_arith);
    assert(smooth_cubic(0) / (s * s) == 0) by (nonlinear_arith)
        requires
            smooth_cubic(0) == 0,
            s == 1073741824,
    ;
}

/// The smoothstep remap of a fraction in range is again a fraction in range.
pub proof fn lemma_smooth_remap_range(p: int)
    requires
        0 <= p <= SCALE,
    ensures
        0 <= smooth_remap(p) <= SCALE as int,
{
    let s = SCALE as int;
    if 2 * p <= s {
        lemma_smooth_cubic_half_bounds(p);
        lemma_div_pos_is_pos(smooth_cubic(p), s * s);
        lemma_div_is_ordered(smooth_cubic(p), s * s * s / 2, s * s);
        lemma_half_cubed_quotient();
    } else {
        lemma_smooth_cubic_half_bounds(s - p);
        lemma_div_pos_is_pos(smooth_cubic(s - p), s * s);
        lemma_div_is_ordered(smooth_cubic(s - p), s * s * s / 2, s * s);
        lemma_half_cubed_quotient();
    }
}

/// Half of `SCALE^3`, divided by `SCALE^2`, is half of `SCALE`.
proof fn lemma_half_cubed_quotient()
    ensures
        (SCALE as int) * (SCALE as int) * (SCALE as int) / 2 / ((SCALE as int) * (SCALE as int))
            == (SCALE as int) / 2,
{
    let s = SCALE as int;
    assert(s * s * s / 2 == (s / 2) * (s * s)) by (nonlinear_arith)
        requires
            s == 1073741824,
    ;
    lemma_div_multiples_vanish(s / 2, s * s);
    assert((s / 2) * (s * s) == (s * s) * (s / 2)) by (nonlinear_arith);
}

/// The mirror law of the smoothstep remap, exact: remapping `p` and its
/// mirrored fraction `SCALE - p` adds up to exactly `SCALE`.
pub proof fn lemma_smooth_remap_mirror(p: int)
    requires
        0 <= p <= SCALE,
    ensures
        smooth_remap(p) + smooth_remap((SCALE as int) - p) == SCALE as int,
{
    let s = SCALE as int;
    if 2 * p == s {
        assert(smooth_cubic(s - p) == smooth_cubic(p));
        assert(smooth_cubic(536870912) == 618970019642690137449562112) by (nonlinear_arith);
        assert(618970019642690137449562112int / (s * s) == 536870912) by (nonlinear_arith)
            requires
                s == 1073741824,
        ;
    }
}

/// The smoothstep remap does not decrease as the fraction grows.
pub proof fn lemma_smooth_remap_monotonic(p: int, q: int)
    requires
        0 <= p <= q <= SCALE,
    ensures
        smooth_remap(p) <= smooth_remap(q),
{
    let s = SCALE as int;
    if 2 * q <= s {
        lemma_smooth_cubic_monotonic(p, q);
        lemma_div_is_ordered(smooth_cubic(p), smooth_cubic(q), s * s);
    } else if 2 * p > s {
        lemma_smooth_cubic_monotonic(s - q, s - p);
        lemma_div_is_ordered(smooth_cubic(s - q), smooth_cubic(s - p), s * s);
    } else {
        lemma_smooth_remap_range(p);
        lemma_smooth_remap_range(q);
        lemma_smooth_cubic_half_bounds(p);
        lemma_div_is_ordered(smooth_cubic(p), s * s * s / 2, s * s);
        lemma_half_cubed_quotient();
        lemma_smooth_cubic_half_bounds(s - q);
        lemma_div_is_ordered(smooth_cubic(s - q), s * s * s / 2, s * s);
    }
}

/// Interpolates very similar to a cosine interpolation.  This is the
/// *recommended* interpolator.
///
/// This is the smoothstep curve `3p^2 - 2p^3` used by the original Perlin
/// noise implementation: its first derivative vanishes at both endpoints,
/// giving seamless joins at the lattice-cell borders.
pub struct PerlinInterpolator;

impl Interpolator for PerlinInterpolator {
    open spec fn spec_interpolate(&self, a: int, b: int, percent: int) -> int {
        lerp(a, b, smooth_remap(percent))
    }

    proof fn lemma_identity(&self, a: int, b: int) {
        lemma_smooth_remap_identity();
        lemma_lerp_identity(a, b);
    }

    proof fn lemma_bounds(&self, a: int, b: int, percent: int) {
        lemma_smooth_remap_range(percent);
        lemma_lerp_bounds(a, b, smooth_remap(percent));
    }

    fn interpolate(&self, a: i64, b: i64, percent: i64) -> (r: i64) {
        let x = smooth_remap_fixed(percent);
        lerp_fixed(a, b, x)
    }
}

/// For `a <= b` the smoothstep blend does not decrease as the fraction
/// grows.
pub proof fn lemma_perlin_monotonic(a: int, b: int, p: int, q: int)
    requires
        a <= b,
        0 <= p <= q <= SCALE,
    ensures
        lerp(a, b, smooth_remap(p)) <= lerp(a, b, smooth_remap(q)),
{
    lemma_smooth_remap_monotonic(p, q);
    lemma_smooth_remap_range(p);
    lemma_smooth_remap_range(q);
    lemma_lerp_monotonic(a, b, smooth_remap(p), smooth_remap(q));
}

/// The mirror law for the smoothstep blend, exact over the undivided blend.
pub proof fn lemma_perlin_mirror(a: int, b: int, p: int)
    requires
        0 <= p <= SCALE,
    ensures
        lerp_wide(a, b, smooth_remap(p)) + lerp_wide(a, b, smooth_remap((SCALE as int) - p)) == (a
            + b) * (SCALE as int),
{
    lemma_smooth_remap_mirror(p);
    lemma_lerp_wide_mirror(a, b, smooth_remap(p));
}

/// A quarter turn — half of pi — as a fixed-point scalar.
pub const PI_HALF_FIXED: i64 = 1686629713;

/// One sixth, the reciprocal of `3!`, as a fixed-point scalar.
pub const SIN_C3: i64 = 178956971;

/// The reciprocal of `5!` as a fixed-point scalar.
pub const SIN_C5: i64 = 8947849;

/// The reciprocal of `7!` as a fixed-point scalar.
pub const SIN_C7: i64 = 213044;

/// The reciprocal of `9!` as a fixed-point scalar.
pub const SIN_C9: i64 = 2959;

/// The reciprocal of `11!` as a fixed-point scalar.
pub const SIN_C11: i64 = 27;

/// The squared sine of a quarter turn of the fraction `p`: the fixed-point
/// evaluation of `sin(p * pi / 2) ^ 2`, which equals the cosine remapping
/// `(1 - cos(p * pi)) / 2`.  The sine is a degree-eleven alternating series
/// evaluated from the inside out; the result is clamped to at most half of
/// [`SCALE`], the mathematical supremum on the lower half of the domain.
pub open spec fn sin_quarter_sq(p: int) -> int {
    let s = SCALE as int;
    let x = p * (PI_HALF_FIXED as int) / s;
    let y = x * x / s;
    let u5 = (SIN_C9 as int) - y * (SIN_C11 as int) / s;
    let u4 = (SIN_C7 as int) - y * u5 / s;
    let u3 = (SIN_C5 as int) - y * u4 / s;
    let u2 = (SIN_C3 as int) - y * u3 / s;
    let u1 = s - y * u2 / s;
    let t = x * u1 / s;
    let q = t * t / s;
    if q > s / 2 {
        s / 2
    } else {
        q
    }
}

/// The cosine remapping of an interpolation fraction: `(1 - cos(p*pi)) / 2`
/// over the represented fractions.  The upper half is evaluated by
/// reflecting the lower half and the midpoint is half — its exact
/// mathematical value — so the remap satisfies the mirror law
/// `cos_remap(p) + cos_remap(SCALE - p) == SCALE` exactly.
pub open spec fn cos_remap(p: int) -> int {
    let s = SCALE as int;
    if 2 * p < s {
        sin_quarter_sq(p)
    } else if 2 * p == s {
        s / 2
    } else {
        s - sin_quarter_sq(s - p)
    }
}

/// Multiplies two nonnegative bounded scalars and divides by [`SCALE`].
fn mul_div_scale_bounded(a: i64, b: i64, Ghost(amax): Ghost<int>, Ghost(bmax): Ghost<int>) -> (r:
    i64)
    requires
        0 <= a <= amax,
        0 <= b <= bmax,
        amax * bmax <= i64::MAX,
    ensures
        r == (a as int) * (b as int) / (SCALE as int),
        0 <= r <= amax * bmax / (SCALE as int),
{
    proof {
        vstd::arithmetic::mul::lemma_mul_upper_bound(a as int, amax, b as int, bmax);
        lemma_mul_nonnegative(a as int, b as int);
    }
    let prod = a * b;
    let q = prod / SCALE;
    proof {
        lemma_div_pos_is_pos(prod as int, SCALE as int);
        lemma_div_is_ordered(prod as int, amax * bmax, SCALE as int);
    }
    q
}

/// Evaluates [`sin_quarter_sq`] for a fraction in the lower half.
fn sin_quarter_sq_fixed(p: i64) -> (r: i64)
    requires
        0 <= 2 * p < SCALE,
    ensures
        r == sin_quarter_sq(p as int),
        0 <= 2 * r <= SCALE,
{
    let x = mul_div_scale_bounded(p, PI_HALF_FIXED, Ghost(536870911), Ghost(1686629713));
    let y = mul_div_scale_bounded(x, x, Ghost(843314854), Ghost(843314854));
    let d5 = mul_div_scale_bounded(y, SIN_C11, Ghost(662337935), Ghost(27));
    let u5 = SIN_C9 - d5;
    let d4 = mul_div_scale_bounded(y, u5, Ghost(662337935), Ghost(2959));
    let u4 = SIN_C7 - d4;
    let d3 = mul_div_scale_bounded(y, u4, Ghost(662337935), Ghost(213044));
    let u3 = SIN_C5 - d3;
    let d2 = mul_div_scale_bounded(y, u3, Ghost(662337935), Ghost(8947849));
    let u2 = SIN_C3 - d2;
    let d1 = mul_div_scale_bounded(y, u2, Ghost(662337935), Ghost(178956971));
    let u1 = SCALE - d1;
    let t = mul_div_scale_bounded(x, u1, Ghost(843314854), Ghost(1073741824));
    let q = mul_div_scale_bounded(t, t, Ghost(843314854), Ghost(843314854));
    if q > SCALE / 2 {
        SCALE / 2
    } else {
        q
    }
}

/// Evaluates [`cos_remap`] for any fraction in range.
fn cos_remap_fixed(percent: i64) -> (r: i64)
    requires
        0 <= percent <= SCALE,
    ensures
        r == cos_remap(percent as int),
        0 <= r <= SCALE,
{
    if 2 * percent < SCALE {
        sin_quarter_sq_fixed(percent)
    } else if 2 * percent == SCALE {
        SCALE / 2
    } else {
        SCALE - sin_quarter_sq_fixed(SCALE - percent)
    }
}

/// The squared quarter-turn sine of a fraction in the lower half is again a
/// fraction, of at most one half.
pub proof fn lemma_sin_quarter_sq_range(p: int)
    requires
        0 <= 2 * p < SCALE,
    ensures
        0 <= sin_quarter_sq(p) <= (SCALE as int) / 2,
{
    let s = SCALE as int;
    let x = p * (PI_HALF_FIXED as int) / s;
    let u5 = (SIN_C9 as int) - (x * x / s) * (SIN_C11 as int) / s;
    let u4 = (SIN_C7 as int) - (x * x / s) * u5 / s;
    let u3 = (SIN_C5 as int) - (x * x / s) * u4 / s;
    let u2 = (SIN_C3 as int) - (x * x / s) * u3 / s;
    let u1 = s - (x * x / s) * u2 / s;
    let t = x * u1 / s;
    assert(t * t >= 0) by (nonlinear_arith);
    lemma_div_pos_is_pos(t * t, s);
}

/// The cosine remap of a fraction in range is again a fraction in range.
pub proof fn lemma_cos_remap_range(p: int)
    requires
        0 <= p <= SCALE,
    ensures
        0 <= cos_remap(p) <= SCALE as int,
{
    let s = SCALE as int;
    if 2 * p < s {
        lemma_sin_quarter_sq_range(p);
    } else if 2 * p > s {
        lemma_sin_quarter_sq_range(s - p);
    }
}

/// The cosine remap fixes both endpoints.
pub proof fn lemma_cos_remap_identity()
    ensures
        cos_remap(0) == 0,
        cos_remap(SCALE as int) == SCALE as int,
{
    let s = SCALE as int;
    let x = 0 * (PI_HALF_FIXED as int) / s;
    let y = x * x / s;
    let u5 = (SIN_C9 as int) - y * (SIN_C11 as int) / s;
    let u4 = (SIN_C7 as int) - y * u5 / s;
    let u3 = (SIN_C5 as int) - y * u4 / s;
    let u2 = (SIN_C3 as int) - y * u3 / s;
    let u1 = s - y * u2 / s;
    let t = x * u1 / s;
    assert(0 * (PI_HALF_FIXED as int) == 0) by (nonlinear_arith);
    assert(0int / s == 0) by (nonlinear_arith)
        requires
            s == 1073741824,
    ;
    assert(x * u1 == 0) by (nonlinear_arith)
        requires
            x == 0,
    ;
    assert(t * t == 0) by (nonlinear_arith)
        requires
            t == 0,
    ;
    assert(sin_quarter_sq(0) == 0);
}

/// The mirror law of the cosine remap, exact: remapping `p` and its
/// mirrored fraction `SCALE - p` adds up to exactly `SCALE`.
pub proof fn lemma_cos_remap_mirror(p: int)
    requires
        0 <= p <= SCALE,
    ensures
        cos_remap(p) + cos_remap((SCALE as int) - p) == SCALE as int,
{
}

/// Interpolates by using the cosine slope.
///
/// This is slightly better than Perlin interpolation but much more
/// expensive: the blend fraction is remapped through `(1 - cos(p*pi)) / 2`,
/// evaluated as a degree-eleven sine series in exact integer arithmetic.
///
/// The endpoint, bound and mirror laws are proved like for the other
/// interpolators.  Monotonicity in the fraction is proved across the two
/// halves of the domain ([`lemma_cos_remap_ordered_across_halves`]); within
/// a half the truncating evaluation of the series may wobble by single
/// fixed-point units where the true curve is nearly flat, so unit-exact
/// monotonicity is not established.
pub struct CosInterpolator;

impl Interpolator for CosInterpolator {
    open spec fn spec_interpolate(&self, a: int, b: int, percent: int) -> int {
        lerp(a, b, cos_remap(percent))
    }

    proof fn lemma_identity(&self, a: int, b: int) {
        lemma_cos_remap_identity();
        lemma_lerp_identity(a, b);
    }

    proof fn lemma_bounds(&self, a: int, b: int, percent: int) {
        lemma_cos_remap_range(percent);
        lemma_lerp_bounds(a, b, cos_remap(percent));
    }

    fn interpolate(&self, a: i64, b: i64, percent: i64) -> (r: i64) {
        let x = cos_remap_fixed(percent);
        lerp_fixed(a, b, x)
    }
}

/// The mirror law for the cosine blend, exact over the undivided blend.
pub proof fn lemma_cos_mirror(a: int, b: int, p: int)
    requires
        0 <= p <= SCALE,
    ensures
        lerp_wide(a, b, cos_remap(p)) + lerp_wide(a, b, cos_remap((SCALE as int) - p)) == (a + b) * (
        SCALE as int),
{
    lemma_cos_remap_mirror(p);
    lemma_lerp_wide_mirror(a, b, cos_remap(p));
}

/// The mirror law for the divided smoothstep blend: the two mirrored
/// blends add up to `a + b`, up to less than one fixed-point unit.
pub proof fn lemma_perlin_mirror_rounded(a: int, b: int, p: int)
    requires
        0 <= p <= SCALE,
    ensures
        -2 < lerp(a, b, smooth_remap(p)) + lerp(a, b, smooth_remap((SCALE as int) - p)) - (a + b)
            < 2,
{
    lemma_smooth_remap_mirror(p);
    lemma_smooth_remap_range(p);
    lemma_lerp_mirror(a, b, smooth_remap(p));
}

/// The mirror law for the divided cosine blend: the two mirrored blends
/// add up to `a + b`, up to less than one fixed-point unit.
pub proof fn lemma_cos_mirror_rounded(a: int, b: int, p: int)
    requires
        0 <= p <= SCALE,
    ensures
        -2 < lerp(a, b, cos_remap(p)) + lerp(a, b, cos_remap((SCALE as int) - p)) - (a + b) < 2,
{
    lemma_cos_remap_mirror(p);
    lemma_cos_remap_range(p);
    lemma_lerp_mirror(a, b, cos_remap(p));
}

/// The cosine remap never orders a fraction from the lower half above one
/// from the upper half: the lower half stays at or below one half, the
/// upper half at or above it.
pub proof fn lemma_cos_remap_ordered_across_halves(p: int, q: int)
    requires
        0 <= p,
        2 * p <= SCALE,
        2 * q >= SCALE,
        q <= SCALE,
    ensures
        cos_remap(p) <= cos_remap(q),
{
    let s = SCALE as int;
    if 2 * p < s {
        lemma_sin_quarter_sq_range(p);
    }
    if 2 * q > s {
        lemma_sin_quarter_sq_range(s - q);
    }
}

/// Sawtooth function in the range zero (inclusive) to [`SCALE`] (exclusive)
/// with a period of one: the fixed-point fractional part `x - floor(x)`,
/// which is in `[0, 1)` also for negative `x`.
pub fn sawtooth(x: i64) -> (r: i64)
    ensures
        r == (x as int) % (SCALE as int),
        0 <= r < SCALE,
{
    rem_scale(x)
}

} // verus!
