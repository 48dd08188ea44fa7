//! Interpolated noise: value interpolation over a discrete source noise,
//! and two dimensional gradient noise.

use vstd::arithmetic::div_mod::{
    lemma_div_is_ordered, lemma_div_multiples_vanish, lemma_div_pos_is_pos,
    lemma_fundamental_div_mod, lemma_mod_division_less_than_divisor,
};
use vstd::prelude::*;

use crate::fixed::{div_scale, floor_scale, isqrt, lemma_div_scale_bound, SCALE};
use crate::interpolate::{in_val_range, sawtooth, Interpolator};
use crate::noise::{deterministic, Noise};

verus! {

/// Large odd factor mixed into the first gradient-lattice coordinate.
pub const X_PRIME: u32 = 1073741827;

/// Large odd factor mixed into the second gradient-lattice coordinate.
pub const Y_PRIME: u32 = 53688275;

/// Offset separating the two source positions a gradient is drawn from.
pub const GRADIENT_OFFSET: u32 = 15268783;

/// Odd factor advancing the first source position between draw attempts.
pub const RETRY_X: u32 = 6684817;

/// Odd factor advancing the second source position between draw attempts.
pub const RETRY_Y: u32 = 5684659;

/// Minimum accepted squared magnitude of a gradient candidate, two to the
/// fortieth: a candidate shorter than `2^-10` in real terms is rejected
/// like one outside the unit disk — a documented design choice, since the
/// integer square root is too coarse to scale such a candidate to unit
/// length.
pub const GRADIENT_MIN_SQ: i64 = 0x10000000000;

/// Bound on the squared magnitude of a drawn gradient: one (`SCALE`
/// squared) plus the scaling slack the integer square root leaves at the
/// minimum accepted candidate magnitude (two to the forty-first).
pub const GRADIENT_NORM_SQ_LIMIT: i64 = 1152923703630102528;

/// Bound on the magnitude of one corner contribution and hence of the
/// blended gradient noise: essentially the square root of two, the largest
/// dot product of a cell offset with a unit gradient.
pub const DOT_LIMIT: i64 = 1518501699;

/// Takes discrete input noise to produce value-interpolated output noise.
pub struct InterpolatedNoise<Src, I> {
    /// The discrete source noise sampled at the integer lattice points.
    pub source: Src,

    /// The interpolation strategy blending neighbouring lattice values.
    pub interpolator: I,
}

impl<Src: Noise<i32, i64>, I: Interpolator> InterpolatedNoise<Src, I> {
    /// Structural validity: the source accepts every position and yields
    /// values the interpolator accepts.
    pub open spec fn wf(&self) -> bool {
        &&& forall|p: i32| #[trigger] self.source.pre(p)
        &&& forall|p: i32, v: i64| #[trigger] self.source.post(p, v) ==> in_val_range(v as int)
    }

    /// The lattice cell holding the position.
    pub open spec fn lattice_index(&self, position: i64) -> int {
        (position as int) / (SCALE as int)
    }

    /// Creates a new interpolated noise using the given source noise and
    /// the given interpolator.
    pub fn new(source: Src, interpolator: I) -> (r: InterpolatedNoise<Src, I>)
        ensures
            r == (InterpolatedNoise { source, interpolator }),
    {
        InterpolatedNoise { source, interpolator }
    }
}

impl<Src: Noise<i32, i64>, I: Interpolator> Noise<i64, i64> for InterpolatedNoise<Src, I> {
    open spec fn pre(&self, position: i64) -> bool {
        &&& self.wf()
        &&& i32::MIN <= self.lattice_index(position)
        &&& self.lattice_index(position) < i32::MAX
    }

    open spec fn post(&self, position: i64, result: i64) -> bool {
        exists|a: i64, b: i64|
            {
                &&& #[trigger] self.source.post(self.lattice_index(position) as i32, a)
                &&& #[trigger] self.source.post((self.lattice_index(position) + 1) as i32, b)
                &&& result == self.interpolator.spec_interpolate(
                    a as int,
                    b as int,
                    (position as int) % (SCALE as int),
                )
            }
    }

    fn value(&self, position: i64) -> (result: i64) {
        let a = floor_scale(position) as i32;
        let b = a + 1;
        let p = sawtooth(position);
        let va = self.source.value(a);
        let vb = self.source.value(b);
        let result = self.interpolator.interpolate(va, vb, p);
        proof {
            assert(self.source.post(self.lattice_index(position) as i32, va)
                && self.source.post((self.lattice_index(position) + 1) as i32, vb));
        }
        result
    }
}

/// A value-interpolated generator over a deterministic source is itself
/// deterministic: equal fields and equal positions give bit-identical
/// output.
pub proof fn lemma_interpolated_noise_deterministic<Src: Noise<i32, i64>, I: Interpolator>(
    noise: InterpolatedNoise<Src, I>,
)
    requires
        deterministic::<i32, i64, Src>(noise.source),
    ensures
        deterministic::<i64, i64, InterpolatedNoise<Src, I>>(noise),
{
    assert forall|position: i64, r1: i64, r2: i64|
        noise.post(position, r1) && noise.post(position, r2) implies r1 == r2 by {
        let (a1, b1) = choose|a: i64, b: i64|
            {
                &&& #[trigger] noise.source.post(noise.lattice_index(position) as i32, a)
                &&& #[trigger] noise.source.post((noise.lattice_index(position) + 1) as i32, b)
                &&& r1 == noise.interpolator.spec_interpolate(
                    a as int,
                    b as int,
                    (position as int) % (SCALE as int),
                )
            };
        let (a2, b2) = choose|a: i64, b: i64|
            {
                &&& #[trigger] noise.source.post(noise.lattice_index(position) as i32, a)
                &&& #[trigger] noise.source.post((noise.lattice_index(position) + 1) as i32, b)
                &&& r2 == noise.interpolator.spec_interpolate(
                    a as int,
                    b as int,
                    (position as int) % (SCALE as int),
                )
            };
        assert(a1 == a2 && b1 == b2);
    }
}

/// A candidate pair scaled by its integer norm is a near-unit vector: its
/// squared magnitude stays within [`GRADIENT_NORM_SQ_LIMIT`].
proof fn lemma_scaled_pair_norm_bound(gx: int, gy: int, g0: int, g1: int, norm: int, d2: int)
    requires
        g0 * g0 * (norm * norm) <= gx * gx * ((SCALE as int) * (SCALE as int)),
        g1 * g1 * (norm * norm) <= gy * gy * ((SCALE as int) * (SCALE as int)),
        d2 == gx * gx + gy * gy,
        d2 < (norm + 1) * (norm + 1),
        1048576 <= norm,
    ensures
        g0 * g0 + g1 * g1 <= GRADIENT_NORM_SQ_LIMIT,
{
    let x = g0 * g0 + g1 * g1;
    let s2 = (SCALE as int) * (SCALE as int);
    assert(0 <= x && x * (norm * norm) <= d2 * s2) by (nonlinear_arith)
        requires
            g0 * g0 * (norm * norm) <= gx * gx * s2,
            g1 * g1 * (norm * norm) <= gy * gy * s2,
            d2 == gx * gx + gy * gy,
            x == g0 * g0 + g1 * g1,
    ;
    assert(d2 * s2 <= (norm * norm) * s2 + 2 * norm * s2) by (nonlinear_arith)
        requires
            d2 < (norm + 1) * (norm + 1),
            0 < s2,
    ;
    assert(x <= GRADIENT_NORM_SQ_LIMIT) by (nonlinear_arith)
        requires
            0 <= x,
            x * (norm * norm) <= (norm * norm) * s2 + 2 * norm * s2,
            1048576 <= norm,
            s2 == 1152921504606846976,
            GRADIENT_NORM_SQ_LIMIT == 1152923703630102528,
    ;
}

/// Divides one component of a gradient vector by the vector's norm,
/// scaling it to a unit-length fixed-point component.
fn scale_by_norm(component: i64, norm: i64) -> (r: i64)
    requires
        1 <= norm <= SCALE,
        -norm <= component <= norm,
    ensures
        r == scaled_to_unit(component as int, norm as int),
        -SCALE <= r <= SCALE,
        r * r * ((norm as int) * (norm as int)) <= component * component * ((SCALE as int) * (
        SCALE as int)),
{
    proof {
        assert(-(SCALE as int) * (SCALE as int) <= component * (SCALE as int) <= (SCALE as int) * (
        SCALE as int)) by (nonlinear_arith)
            requires
                -SCALE <= component <= SCALE,
                SCALE == 1073741824,
        ;
        lemma_div_multiples_vanish(norm as int, norm as int);
        assert((SCALE as int) * norm == norm * (SCALE as int)) by (nonlinear_arith);
        assert(component * (SCALE as int) <= norm * (SCALE as int) && -(norm * (SCALE as int))
            <= component * (SCALE as int)) by (nonlinear_arith)
            requires
                -norm <= component <= norm,
                SCALE == 1073741824,
        ;
        lemma_div_multiples_vanish(SCALE as int, norm as int);
    }
    let scaled = component * SCALE;
    if scaled >= 0 {
        let q = scaled / norm;
        proof {
            lemma_div_pos_is_pos(scaled as int, norm as int);
            lemma_div_is_ordered(scaled as int, norm * (SCALE as int), norm as int);
            lemma_fundamental_div_mod(scaled as int, norm as int);
            lemma_mod_division_less_than_divisor(scaled as int, norm as int);
            assert(q == scaled as int / (norm as int));
            assert((norm as int) * q <= scaled as int);
            assert(q * q * ((norm as int) * (norm as int)) <= scaled * scaled) by (nonlinear_arith)
                requires
                    0 <= q,
                    0 < norm,
                    (norm as int) * q <= scaled as int,
            ;
            assert(scaled * scaled == component * component * ((SCALE as int) * (SCALE as int)))
                by (nonlinear_arith)
                requires
                    scaled == component * (SCALE as int),
            ;
        }
        q
    } else {
        let q = (-scaled) / norm;
        proof {
            lemma_div_pos_is_pos(-scaled as int, norm as int);
            lemma_div_is_ordered(-scaled as int, norm * (SCALE as int), norm as int);
            lemma_fundamental_div_mod(-scaled as int, norm as int);
            lemma_mod_division_less_than_divisor(-scaled as int, norm as int);
            assert(q == -(scaled as int) / (norm as int));
            assert((norm as int) * q <= -(scaled as int));
            assert(q * q * ((norm as int) * (norm as int)) <= scaled * scaled) by (nonlinear_arith)
                requires
                    0 <= q,
                    0 < norm,
                    (norm as int) * q <= -(scaled as int),
            ;
            assert(scaled * scaled == component * component * ((SCALE as int) * (SCALE as int)))
                by (nonlinear_arith)
                requires
                    scaled == component * (SCALE as int),
            ;
            assert((-q) * (-q) == q * q) by (nonlinear_arith);
        }
        -q
    }
}

/// The scaled distance-weighted contribution of one corner gradient: the
/// dot product of the offset vector and the gradient, divided by
/// [`SCALE`].  By the Cauchy-Schwarz inequality the contribution of a
/// near-unit gradient stays essentially within the square root of two.
#[verifier::rlimit(60)]
fn dot_fixed(dx: i64, dy: i64, gx: i64, gy: i64) -> (r: i64)
    requires
        -SCALE <= dx <= SCALE,
        -SCALE <= dy <= SCALE,
        -SCALE <= gx <= SCALE,
        -SCALE <= gy <= SCALE,
        gx * gx + gy * gy <= GRADIENT_NORM_SQ_LIMIT,
    ensures
        r == div_scale(dx * gx + dy * gy),
        -DOT_LIMIT <= r <= DOT_LIMIT,
{
    proof {
        assert(-(SCALE as int) * (SCALE as int) <= dx * gx <= (SCALE as int) * (SCALE as int) && -(
        SCALE as int) * (SCALE as int) <= dy * gy <= (SCALE as int) * (SCALE as int))
            by (nonlinear_arith)
            requires
                -SCALE <= dx <= SCALE,
                -SCALE <= dy <= SCALE,
                -SCALE <= gx <= SCALE,
                -SCALE <= gy <= SCALE,
                SCALE == 1073741824,
        ;
        let a = dx * gx;
        let b = dy * gy;
        let c = dx * gy;
        let d = dy * gx;
        assert((a + b) * (a + b) == a * a + 2 * (a * b) + b * b) by (nonlinear_arith);
        assert((c - d) * (c - d) == c * c - 2 * (c * d) + d * d) by (nonlinear_arith);
        assert(a * a == (dx * dx) * (gx * gx) && b * b == (dy * dy) * (gy * gy) && c * c == (dx
            * dx) * (gy * gy) && d * d == (dy * dy) * (gx * gx) && a * b == c * d)
            by (nonlinear_arith)
            requires
                a == dx * gx,
                b == dy * gy,
                c == dx * gy,
                d == dy * gx,
        ;
        assert((dx * dx + dy * dy) * (gx * gx + gy * gy) == (dx * dx) * (gx * gx) + (dx * dx) * (gy
            * gy) + (dy * dy) * (gx * gx) + (dy * dy) * (gy * gy)) by (nonlinear_arith);
        assert((c - d) * (c - d) >= 0) by (nonlinear_arith);
        assert((a + b) * (a + b) + (c - d) * (c - d) == (dx * dx + dy * dy) * (gx * gx + gy * gy));
        assert((dx * gx + dy * gy) * (dx * gx + dy * gy) <= (dx * dx + dy * dy) * (gx * gx + gy
            * gy));
        assert(0 <= dx * dx + dy * dy <= 2 * ((SCALE as int) * (SCALE as int)) && 0 <= gx * gx + gy
            * gy) by (nonlinear_arith)
            requires
                -SCALE <= dx <= SCALE,
                -SCALE <= dy <= SCALE,
                SCALE == 1073741824,
        ;
        assert((dx * dx + dy * dy) * (gx * gx + gy * gy) <= 2658461062172232658725220107373510656)
            by (nonlinear_arith)
            requires
                0 <= dx * dx + dy * dy <= 2 * ((SCALE as int) * (SCALE as int)),
                0 <= gx * gx + gy * gy <= GRADIENT_NORM_SQ_LIMIT,
                SCALE == 1073741824,
                GRADIENT_NORM_SQ_LIMIT == 1152923703630102528,
        ;
        assert(-(DOT_LIMIT as int) * (SCALE as int) <= dx * gx + dy * gy <= (DOT_LIMIT as int) * (
        SCALE as int)) by (nonlinear_arith)
            requires
                (dx * gx + dy * gy) * (dx * gx + dy * gy) <= 2658461062172232658725220107373510656,
                DOT_LIMIT == 1518501699,
                SCALE == 1073741824,
        ;
        lemma_div_scale_bound(dx * gx + dy * gy, DOT_LIMIT as int);
    }
    let p1 = dx * gx;
    let p2 = dy * gy;
    let sum = p1 + p2;
    let q = if sum >= 0 {
        sum / SCALE
    } else {
        -((-sum) / SCALE)
    };
    q
}

/// Produces two-dimensional gradient-noise using discrete one-dimensional
/// source noise.
///
/// Each lattice corner carries a pseudo-random unit gradient, drawn by
/// rejection sampling from the source noise; the value at a position
/// blends the dot products of the corner gradients with the offsets from
/// the corners.  The source noise is required to stay within `[-1, 1]` and
/// should be uniformly distributed.
///
/// The rejection sampling is given a fixed retry budget as a safety bound,
/// with a unit gradient along the first axis as the fallback; the draw
/// succeeds within the budget for all but a vanishing fraction of corners.
/// Candidates below a minimum magnitude are rejected like those outside
/// the disk (see [`GRADIENT_MIN_SQ`]): the fixed-point normalization
/// cannot scale them to unit length.  Both bounds are design choices of
/// this implementation.
pub struct InterpolatedNoise2D<Src, I> {
    /// The discrete source noise the gradients are drawn from.
    pub source: Src,

    /// The interpolation strategy blending the corner contributions.
    pub interpolator: I,
}

/// The first source position a gradient for corner `(x, y)` is drawn
/// from: `x * X_PRIME + y * Y_PRIME` in wrapping 32-bit arithmetic.
pub open spec fn gradient_base(x: i32, y: i32) -> u32 {
    (x as u32).wrapping_mul(X_PRIME).wrapping_add((y as u32).wrapping_mul(Y_PRIME))
}

/// The first source position of draw attempt `k` for corner `(x, y)`.
pub open spec fn try_index_x(x: i32, y: i32, k: nat) -> u32
    decreases k,
{
    if k == 0 {
        gradient_base(x, y)
    } else {
        try_index_x(x, y, (k - 1) as nat).wrapping_mul(RETRY_X)
    }
}

/// The second source position of draw attempt `k` for corner `(x, y)`.
pub open spec fn try_index_y(x: i32, y: i32, k: nat) -> u32
    decreases k,
{
    if k == 0 {
        gradient_base(x, y).wrapping_add(GRADIENT_OFFSET)
    } else {
        try_index_y(x, y, (k - 1) as nat).wrapping_mul(RETRY_Y)
    }
}

/// One gradient component scaled to unit length: `component * SCALE`
/// divided by the vector's norm, rounded toward zero.
pub open spec fn scaled_to_unit(component: int, norm: int) -> int {
    if component >= 0 {
        component * (SCALE as int) / norm
    } else {
        -((-component) * (SCALE as int) / norm)
    }
}

impl<Src: Noise<i32, i64>, I: Interpolator> InterpolatedNoise2D<Src, I> {
    /// Structural validity: the source accepts every position and stays
    /// within one unit of zero.
    pub open spec fn wf(&self) -> bool {
        &&& forall|p: i32| #[trigger] self.source.pre(p)
        &&& forall|p: i32, v: i64| #[trigger] self.source.post(p, v) ==> -SCALE <= v <= SCALE
    }

    /// The lattice column holding the position.
    pub open spec fn lattice_x(&self, position: (i64, i64)) -> int {
        (position.0 as int) / (SCALE as int)
    }

    /// The lattice row holding the position.
    pub open spec fn lattice_y(&self, position: (i64, i64)) -> int {
        (position.1 as int) / (SCALE as int)
    }

    /// Attempt `k` of the draw for corner `(x, y)` can be rejected: the
    /// source may hand back a candidate pair outside the unit disk, or one
    /// below the minimum magnitude.  Of a source whose contract pins its
    /// values down, this says the attempt *is* rejected.
    pub open spec fn attempt_rejectable(&self, x: i32, y: i32, k: nat) -> bool {
        exists|rx: i64, ry: i64|
            #![trigger self.source.post(try_index_x(x, y, k) as i32, rx), self.source.post(try_index_y(x, y, k) as i32, ry)]
            {
                &&& self.source.post(try_index_x(x, y, k) as i32, rx)
                &&& self.source.post(try_index_y(x, y, k) as i32, ry)
                &&& (rx * rx + ry * ry < GRADIENT_MIN_SQ || rx * rx + ry * ry > (
                SCALE as int) * (SCALE as int))
            }
    }

    /// `g` is a gradient the draw for corner `(x, y)` may return: the
    /// candidate pair of source values from the *first* draw attempt that
    /// falls inside the unit disk at the minimum magnitude or above,
    /// scaled to unit length by its integer norm — or the fallback unit
    /// vector along the first axis, only when every attempt in the budget
    /// was rejected.  For a deterministic source this pins the gradient
    /// down to one value: see [`lemma_gradient_deterministic`].
    pub open spec fn is_gradient(&self, x: i32, y: i32, g: (i64, i64)) -> bool {
        ||| {
            &&& g.0 == SCALE && g.1 == 0
            &&& forall|k: nat| k < 64 ==> #[trigger] self.attempt_rejectable(x, y, k)
        }
        ||| exists|k: nat, rx: i64, ry: i64, n: int|
            #![trigger self.source.post(try_index_x(x, y, k) as i32, rx), self.source.post(try_index_y(x, y, k) as i32, ry), scaled_to_unit(rx as int, n)]
            {
                &&& k < 64
                &&& forall|j: nat| j < k ==> #[trigger] self.attempt_rejectable(x, y, j)
                &&& self.source.post(try_index_x(x, y, k) as i32, rx)
                &&& self.source.post(try_index_y(x, y, k) as i32, ry)
                &&& GRADIENT_MIN_SQ <= rx * rx + ry * ry <= (SCALE as int) * (SCALE as int)
                &&& 0 <= n
                &&& n * n <= rx * rx + ry * ry < (n + 1) * (n + 1)
                &&& g.0 == scaled_to_unit(rx as int, n)
                &&& g.1 == scaled_to_unit(ry as int, n)
            }
    }

    /// `g` is a possible gradient of the lattice corner `dx` columns and
    /// `dy` rows past the cell holding the position.
    pub open spec fn is_corner_gradient(
        &self,
        position: (i64, i64),
        dx: int,
        dy: int,
        g: (i64, i64),
    ) -> bool {
        self.is_gradient(
            (self.lattice_x(position) + dx) as i32,
            (self.lattice_y(position) + dy) as i32,
            g,
        )
    }

    /// The contribution of the corner `dx` columns and `dy` rows past the
    /// cell: the dot product of the offset from that corner with the
    /// corner's gradient, over the fixed-point scale.
    pub open spec fn corner_dot(&self, position: (i64, i64), dx: int, dy: int, g: (i64, i64)) -> int {
        div_scale(
            ((position.0 as int) % (SCALE as int) - dx * (SCALE as int)) * g.0 + ((
            position.1 as int) % (SCALE as int) - dy * (SCALE as int)) * g.1,
        )
    }

    /// The bilinear cascade over the four corner contributions: both
    /// corner pairs blended along the first axis at its fractional part,
    /// the two row results along the second.
    pub open spec fn blended(
        &self,
        position: (i64, i64),
        g00: (i64, i64),
        g10: (i64, i64),
        g01: (i64, i64),
        g11: (i64, i64),
    ) -> int {
        self.interpolator.spec_interpolate(
            self.interpolator.spec_interpolate(
                self.corner_dot(position, 0, 0, g00),
                self.corner_dot(position, 1, 0, g10),
                (position.0 as int) % (SCALE as int),
            ),
            self.interpolator.spec_interpolate(
                self.corner_dot(position, 0, 1, g01),
                self.corner_dot(position, 1, 1, g11),
                (position.0 as int) % (SCALE as int),
            ),
            (position.1 as int) % (SCALE as int),
        )
    }

    /// Creates a gradient-noise generator over the given source noise and
    /// interpolator.
    pub fn new(source: Src, interpolator: I) -> (r: InterpolatedNoise2D<Src, I>)
        ensures
            r == (InterpolatedNoise2D { source, interpolator }),
    {
        InterpolatedNoise2D { source, interpolator }
    }

    /// Draws the pseudo-random unit gradient of the lattice corner
    /// `(x, y)`: source values are taken as candidate components until a
    /// candidate falls inside the unit disk — at or above the minimum
    /// magnitude [`GRADIENT_MIN_SQ`], below which the integer square root
    /// cannot scale it accurately — then the candidate is scaled to unit
    /// length.  Both components always lie within one unit, and the
    /// squared magnitude within [`GRADIENT_NORM_SQ_LIMIT`].
    fn gradient(&self, x: i32, y: i32) -> (g: (i64, i64))
        requires
            self.wf(),
        ensures
            self.is_gradient(x, y, g),
            -SCALE <= g.0 <= SCALE,
            -SCALE <= g.1 <= SCALE,
            g.0 * g.0 + g.1 * g.1 <= GRADIENT_NORM_SQ_LIMIT,
    {
        let mut x_index: u32 = (x as u32).wrapping_mul(X_PRIME).wrapping_add(
            (y as u32).wrapping_mul(Y_PRIME),
        );
        let mut y_index: u32 = x_index.wrapping_add(GRADIENT_OFFSET);
        let mut tries: usize = 0;
        while tries < 64
            invariant
                self.wf(),
                tries <= 64,
                x_index == try_index_x(x, y, tries as nat),
                y_index == try_index_y(x, y, tries as nat),
                forall|j: nat| j < tries ==> #[trigger] self.attempt_rejectable(x, y, j),
            decreases 64 - tries,
        {
            let gx = self.source.value(#[verifier::truncate] (x_index as i32));
            let gy = self.source.value(#[verifier::truncate] (y_index as i32));
            proof {
                assert(-0x1000000000000000 <= gx * gx <= 0x1000000000000000 && -0x1000000000000000
                    <= gy * gy <= 0x1000000000000000 && 0 <= gx * gx && 0 <= gy * gy)
                    by (nonlinear_arith)
                    requires
                        -SCALE <= gx <= SCALE,
                        -SCALE <= gy <= SCALE,
                        SCALE == 1073741824,
                ;
            }
            let d2 = gx * gx + gy * gy;
            if GRADIENT_MIN_SQ <= d2 && d2 <= SCALE * SCALE {
                let n64 = isqrt(d2 as u64);
                proof {
                    assert(n64 <= 0x40000000) by (nonlinear_arith)
                        requires
                            (n64 as int) * (n64 as int) <= d2 as int,
                            d2 <= 0x1000000000000000,
                    ;
                }
                let norm = n64 as i64;
                proof {
                    assert(1048576 <= norm <= SCALE && gx * gx <= (norm as int) * (norm as int) + 2
                        * norm && gy * gy <= (norm as int) * (norm as int) + 2 * norm)
                        by (nonlinear_arith)
                        requires
                            (norm as int) * (norm as int) <= d2 as int,
                            d2 < ((norm as int) + 1) * ((norm as int) + 1),
                            GRADIENT_MIN_SQ <= d2 <= (SCALE as int) * (SCALE as int),
                            d2 == gx * gx + gy * gy,
                            0 <= gx * gx,
                            0 <= gy * gy,
                            0 <= norm,
                            SCALE == 1073741824,
                            GRADIENT_MIN_SQ == 0x10000000000,
                    ;
                    assert(-norm <= gx <= norm && -norm <= gy <= norm) by (nonlinear_arith)
                        requires
                            gx * gx <= (norm as int) * (norm as int) + 2 * norm,
                            gy * gy <= (norm as int) * (norm as int) + 2 * norm,
                            0 <= norm,
                    ;
                }
                let g = (scale_by_norm(gx, norm), scale_by_norm(gy, norm));
                proof {
                    assert(self.source.post(try_index_x(x, y, tries as nat) as i32, gx)
                        && self.source.post(try_index_y(x, y, tries as nat) as i32, gy)
                        && g.0 == scaled_to_unit(gx as int, norm as int) && g.1 == scaled_to_unit(
                        gy as int,
                        norm as int,
                    ));
                    assert(self.is_gradient(x, y, g));
                    lemma_scaled_pair_norm_bound(
                        gx as int,
                        gy as int,
                        g.0 as int,
                        g.1 as int,
                        norm as int,
                        d2 as int,
                    );
                }
                return g;
            }
            proof {
                assert(self.source.post(try_index_x(x, y, tries as nat) as i32, gx)
                    && self.source.post(try_index_y(x, y, tries as nat) as i32, gy) && (gx * gx + gy
                    * gy < GRADIENT_MIN_SQ || gx * gx + gy * gy > (SCALE as int) * (SCALE as int)));
                assert(self.attempt_rejectable(x, y, tries as nat));
            }
            x_index = x_index.wrapping_mul(RETRY_X);
            y_index = y_index.wrapping_mul(RETRY_Y);
            tries = tries + 1;
        }
        (SCALE, 0)
    }
}

/// A nonnegative integer has a single integer square root.
proof fn lemma_isqrt_unique(d: int, n1: int, n2: int)
    requires
        0 <= n1,
        0 <= n2,
        n1 * n1 <= d < (n1 + 1) * (n1 + 1),
        n2 * n2 <= d < (n2 + 1) * (n2 + 1),
    ensures
        n1 == n2,
{
    assert(n1 == n2) by (nonlinear_arith)
        requires
            0 <= n1,
            0 <= n2,
            n1 * n1 <= d < (n1 + 1) * (n1 + 1),
            n2 * n2 <= d < (n2 + 1) * (n2 + 1),
    ;
}

/// A draw attempt that yields an accepted candidate cannot also be
/// rejected when the source's contract pins its values down.
proof fn lemma_attempt_decided<Src: Noise<i32, i64>, I: Interpolator>(
    noise: InterpolatedNoise2D<Src, I>,
    x: i32,
    y: i32,
    k: nat,
    rx: i64,
    ry: i64,
)
    requires
        deterministic::<i32, i64, Src>(noise.source),
        noise.source.post(try_index_x(x, y, k) as i32, rx),
        noise.source.post(try_index_y(x, y, k) as i32, ry),
        GRADIENT_MIN_SQ <= rx * rx + ry * ry <= (SCALE as int) * (SCALE as int),
    ensures
        !noise.attempt_rejectable(x, y, k),
{
    if noise.attempt_rejectable(x, y, k) {
        let (sx, sy) = choose|sx: i64, sy: i64|
            #![trigger noise.source.post(try_index_x(x, y, k) as i32, sx), noise.source.post(try_index_y(x, y, k) as i32, sy)]
            {
                &&& noise.source.post(try_index_x(x, y, k) as i32, sx)
                &&& noise.source.post(try_index_y(x, y, k) as i32, sy)
                &&& (sx * sx + sy * sy < GRADIENT_MIN_SQ || sx * sx + sy * sy > (
                SCALE as int) * (SCALE as int))
            };
        assert(sx == rx && sy == ry);
    }
}

/// The gradient draw over a deterministic source admits a single gradient
/// per corner: the first accepted candidate decides it, and the fallback
/// is possible only when no attempt is.
pub proof fn lemma_gradient_deterministic<Src: Noise<i32, i64>, I: Interpolator>(
    noise: InterpolatedNoise2D<Src, I>,
    x: i32,
    y: i32,
    g1: (i64, i64),
    g2: (i64, i64),
)
    requires
        deterministic::<i32, i64, Src>(noise.source),
        noise.is_gradient(x, y, g1),
        noise.is_gradient(x, y, g2),
    ensures
        g1 == g2,
{
    let all_rejectable = forall|k: nat| k < 64 ==> #[trigger] noise.attempt_rejectable(x, y, k);
    if g1.0 == SCALE && g1.1 == 0 && all_rejectable && g2.0 == SCALE && g2.1 == 0 {
    } else {
        let (k1, rx1, ry1, n1) = choose|k: nat, rx: i64, ry: i64, n: int|
            #![trigger noise.source.post(try_index_x(x, y, k) as i32, rx), noise.source.post(try_index_y(x, y, k) as i32, ry), scaled_to_unit(rx as int, n)]
            {
                &&& k < 64
                &&& forall|j: nat| j < k ==> #[trigger] noise.attempt_rejectable(x, y, j)
                &&& noise.source.post(try_index_x(x, y, k) as i32, rx)
                &&& noise.source.post(try_index_y(x, y, k) as i32, ry)
                &&& GRADIENT_MIN_SQ <= rx * rx + ry * ry <= (SCALE as int) * (SCALE as int)
                &&& 0 <= n
                &&& n * n <= rx * rx + ry * ry < (n + 1) * (n + 1)
                &&& (g1.0 == scaled_to_unit(rx as int, n) && g1.1 == scaled_to_unit(ry as int, n)
                    || g2.0 == scaled_to_unit(rx as int, n) && g2.1 == scaled_to_unit(
                    ry as int,
                    n,
                ))
            };
        if all_rejectable {
            lemma_attempt_decided(noise, x, y, k1, rx1, ry1);
        } else {
            let (ka, rxa, rya, na) = choose|k: nat, rx: i64, ry: i64, n: int|
                #![trigger noise.source.post(try_index_x(x, y, k) as i32, rx), noise.source.post(try_index_y(x, y, k) as i32, ry), scaled_to_unit(rx as int, n)]
                {
                    &&& k < 64
                    &&& forall|j: nat| j < k ==> #[trigger] noise.attempt_rejectable(x, y, j)
                    &&& noise.source.post(try_index_x(x, y, k) as i32, rx)
                    &&& noise.source.post(try_index_y(x, y, k) as i32, ry)
                    &&& GRADIENT_MIN_SQ <= rx * rx + ry * ry <= (SCALE as int) * (SCALE as int)
                    &&& 0 <= n
                    &&& n * n <= rx * rx + ry * ry < (n + 1) * (n + 1)
                    &&& g1.0 == scaled_to_unit(rx as int, n) && g1.1 == scaled_to_unit(
                        ry as int,
                        n,
                    )
                };
            let (kb, rxb, ryb, nb) = choose|k: nat, rx: i64, ry: i64, n: int|
                #![trigger noise.source.post(try_index_x(x, y, k) as i32, rx), noise.source.post(try_index_y(x, y, k) as i32, ry), scaled_to_unit(rx as int, n)]
                {
                    &&& k < 64
                    &&& forall|j: nat| j < k ==> #[trigger] noise.attempt_rejectable(x, y, j)
                    &&& noise.source.post(try_index_x(x, y, k) as i32, rx)
                    &&& noise.source.post(try_index_y(x, y, k) as i32, ry)
                    &&& GRADIENT_MIN_SQ <= rx * rx + ry * ry <= (SCALE as int) * (SCALE as int)
                    &&& 0 <= n
                    &&& n * n <= rx * rx + ry * ry < (n + 1) * (n + 1)
                    &&& g2.0 == scaled_to_unit(rx as int, n) && g2.1 == scaled_to_unit(
                        ry as int,
                        n,
                    )
                };
            if ka < kb {
                lemma_attempt_decided(noise, x, y, ka, rxa, rya);
            } else if kb < ka {
                lemma_attempt_decided(noise, x, y, kb, rxb, ryb);
            } else {
                assert(rxa == rxb && rya == ryb);
                lemma_isqrt_unique(rxa * rxa + rya * rya, na, nb);
            }
        }
    }
}

impl<Src: Noise<i32, i64>, I: Interpolator> Noise<(i64, i64), i64> for InterpolatedNoise2D<
    Src,
    I,
> {
    open spec fn pre(&self, position: (i64, i64)) -> bool {
        &&& self.wf()
        &&& i32::MIN <= self.lattice_x(position)
        &&& self.lattice_x(position) < i32::MAX
        &&& i32::MIN <= self.lattice_y(position)
        &&& self.lattice_y(position) < i32::MAX
    }

    open spec fn post(&self, position: (i64, i64), result: i64) -> bool {
        &&& exists|g00: (i64, i64), g10: (i64, i64), g01: (i64, i64), g11: (i64, i64)|
            {
                &&& #[trigger] self.is_corner_gradient(position, 0, 0, g00)
                &&& #[trigger] self.is_corner_gradient(position, 1, 0, g10)
                &&& #[trigger] self.is_corner_gradient(position, 0, 1, g01)
                &&& #[trigger] self.is_corner_gradient(position, 1, 1, g11)
                &&& result == self.blended(position, g00, g10, g01, g11)
            }
        &&& -DOT_LIMIT <= result <= DOT_LIMIT
    }

    fn value(&self, position: (i64, i64)) -> (result: i64) {
        let (pos_x, pos_y) = position;

        let x0 = floor_scale(pos_x) as i32;
        let y0 = floor_scale(pos_y) as i32;
        let x1 = x0 + 1;
        let y1 = y0 + 1;

        let px = sawtooth(pos_x);
        let py = sawtooth(pos_y);

        // Offsets from the four corners: `px` and `py` measure from the
        // lower corner, so the offsets from the upper corner lie one unit
        // lower.
        let dx1 = px - SCALE;
        let dy1 = py - SCALE;

        let grad00 = self.gradient(x0, y0);
        let grad01 = self.gradient(x0, y1);
        let grad10 = self.gradient(x1, y0);
        let grad11 = self.gradient(x1, y1);

        let n00 = dot_fixed(px, py, grad00.0, grad00.1);
        let n01 = dot_fixed(px, dy1, grad01.0, grad01.1);
        let n10 = dot_fixed(dx1, py, grad10.0, grad10.1);
        let n11 = dot_fixed(dx1, dy1, grad11.0, grad11.1);

        // Interpolate both x directions, then in the y direction.
        let val1 = self.interpolator.interpolate(n00, n10, px);
        let val2 = self.interpolator.interpolate(n01, n11, px);
        proof {
            self.interpolator.lemma_bounds(n00 as int, n10 as int, px as int);
            self.interpolator.lemma_bounds(n01 as int, n11 as int, px as int);
        }
        let result = self.interpolator.interpolate(val1, val2, py);
        proof {
            self.interpolator.lemma_bounds(val1 as int, val2 as int, py as int);
            assert(n00 == self.corner_dot(position, 0, 0, grad00) && n10 == self.corner_dot(
                position,
                1,
                0,
                grad10,
            ) && n01 == self.corner_dot(position, 0, 1, grad01) && n11 == self.corner_dot(
                position,
                1,
                1,
                grad11,
            ));
            assert(self.is_corner_gradient(position, 0, 0, grad00) && self.is_corner_gradient(
                position,
                1,
                0,
                grad10,
            ) && self.is_corner_gradient(position, 0, 1, grad01) && self.is_corner_gradient(
                position,
                1,
                1,
                grad11,
            ));
            assert(result == self.blended(position, grad00, grad10, grad01, grad11));
        }
        result
    }
}

/// A gradient-noise generator over a deterministic source is itself
/// deterministic: equal fields and equal positions give bit-identical
/// output.
pub proof fn lemma_interpolated_noise_2d_deterministic<Src: Noise<i32, i64>, I: Interpolator>(
    noise: InterpolatedNoise2D<Src, I>,
)
    requires
        deterministic::<i32, i64, Src>(noise.source),
    ensures
        deterministic::<(i64, i64), i64, InterpolatedNoise2D<Src, I>>(noise),
{
    assert forall|position: (i64, i64), r1: i64, r2: i64|
        noise.post(position, r1) && noise.post(position, r2) implies r1 == r2 by {
        let (c00, c10, c01, c11) = choose|
            g00: (i64, i64),
            g10: (i64, i64),
            g01: (i64, i64),
            g11: (i64, i64),
        |
            {
                &&& #[trigger] noise.is_corner_gradient(position, 0, 0, g00)
                &&& #[trigger] noise.is_corner_gradient(position, 1, 0, g10)
                &&& #[trigger] noise.is_corner_gradient(position, 0, 1, g01)
                &&& #[trigger] noise.is_corner_gradient(position, 1, 1, g11)
                &&& r1 == noise.blended(position, g00, g10, g01, g11)
            };
        let (d00, d10, d01, d11) = choose|
            g00: (i64, i64),
            g10: (i64, i64),
            g01: (i64, i64),
            g11: (i64, i64),
        |
            {
                &&& #[trigger] noise.is_corner_gradient(position, 0, 0, g00)
                &&& #[trigger] noise.is_corner_gradient(position, 1, 0, g10)
                &&& #[trigger] noise.is_corner_gradient(position, 0, 1, g01)
                &&& #[trigger] noise.is_corner_gradient(position, 1, 1, g11)
                &&& r2 == noise.blended(position, g00, g10, g01, g11)
            };
        lemma_gradient_deterministic(
            noise,
            (noise.lattice_x(position) + 0) as i32,
            (noise.lattice_y(position) + 0) as i32,
            c00,
            d00,
        );
        lemma_gradient_deterministic(
            noise,
            (noise.lattice_x(position) + 1) as i32,
            (noise.lattice_y(position) + 0) as i32,
            c10,
            d10,
        );
        lemma_gradient_deterministic(
            noise,
            (noise.lattice_x(position) + 0) as i32,
            (noise.lattice_y(position) + 1) as i32,
            c01,
            d01,
        );
        lemma_gradient_deterministic(
            noise,
            (noise.lattice_x(position) + 1) as i32,
            (noise.lattice_y(position) + 1) as i32,
            c11,
            d11,
        );
    }
}

} // verus!
