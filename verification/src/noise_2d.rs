//! Generator for two dimensional smooth noise.

use vstd::prelude::*;

use crate::default_noise::DefaultI32Noise;
use crate::fixed::{
    floor_scale, lemma_div_scale_bound, mul_fixed, spec_mul_fixed, SCALE, VAL_LIMIT,
};
use crate::interpolate::{sawtooth, Interpolator, PerlinInterpolator};
use crate::noise::{deterministic, Noise};
use crate::noise_1d::AMP_LIMIT;

verus! {

/// Large odd factor mixed into the first lattice coordinate.
pub const PRIME_X: u32 = 1956337;

/// Large odd factor mixed into the second lattice coordinate.
pub const PRIME_Y: u32 = 8775607;

/// Large odd factor mixed into the seed.
pub const PRIME_SEED: u32 = 967397;

/// The base-noise position for the lattice corner `(x, y)` under `seed`:
/// `x * PRIME_X + y * PRIME_Y + seed * PRIME_SEED` in wrapping 32-bit
/// arithmetic.
pub open spec fn lattice_input_2d(seed: i32, x: i32, y: i32) -> i32 {
    (x as u32).wrapping_mul(PRIME_X).wrapping_add((y as u32).wrapping_mul(PRIME_Y)).wrapping_add(
        (seed as u32).wrapping_mul(PRIME_SEED),
    ) as i32
}

/// Generator for two dimensional smooth noise.
///
/// The value at a position is the bilinear cascade over the four
/// surrounding lattice corners: the two corner pairs are blended along the
/// first axis at its fractional part, and the two row results along the
/// second axis — both passes through the same interpolator.  The result
/// always lies in `[-amplitude, amplitude]`.
///
/// For a detailed description of the parameters see [`crate::SmoothNoise1D`].
pub struct SmoothNoise2D<I, N> {
    /// Identifies the noise pattern: equal seeds give bit-identical noise.
    pub seed: i32,

    /// The resulting noise lies between `-amplitude` and `amplitude`.
    pub amplitude: i64,

    /// Fixed-point scale factors applied per axis before the lattice
    /// lookup.
    pub frequency: (i64, i64),

    /// The interpolation strategy blending the lattice corners.
    pub interpolator: I,

    /// The base noise sampled at the lattice corners.
    pub noise: N,
}

impl<I: Interpolator, N: Noise<i32, i64>> SmoothNoise2D<I, N> {
    /// Structural validity: the amplitude is a nonnegative fixed-point
    /// scalar within [`AMP_LIMIT`], and the base noise accepts every
    /// position and stays within one unit of zero.
    pub open spec fn wf(&self) -> bool {
        &&& 0 <= self.amplitude <= AMP_LIMIT
        &&& forall|p: i32| #[trigger] self.noise.pre(p)
        &&& forall|p: i32, v: i64| #[trigger] self.noise.post(p, v) ==> -SCALE <= v <= SCALE
    }

    /// The first coordinate after frequency scaling.
    pub open spec fn scaled_x(&self, position: (i64, i64)) -> int {
        spec_mul_fixed(position.0 as int, self.frequency.0 as int)
    }

    /// The second coordinate after frequency scaling.
    pub open spec fn scaled_y(&self, position: (i64, i64)) -> int {
        spec_mul_fixed(position.1 as int, self.frequency.1 as int)
    }

    /// The lattice column holding the scaled position.
    pub open spec fn lattice_x(&self, position: (i64, i64)) -> int {
        self.scaled_x(position) / (SCALE as int)
    }

    /// The lattice row holding the scaled position.
    pub open spec fn lattice_y(&self, position: (i64, i64)) -> int {
        self.scaled_y(position) / (SCALE as int)
    }

    /// The base value at a lattice corner is `v * amplitude` for a base
    /// noise value `v` at the mixed corner input.
    pub open spec fn is_base_value(&self, x: i32, y: i32, result: i64) -> bool {
        exists|v: i64|
            #[trigger] self.noise.post(lattice_input_2d(self.seed, x, y), v) && result
                == spec_mul_fixed(v as int, self.amplitude as int)
    }

    /// The base value at the lattice corner `dx` columns and `dy` rows past
    /// the cell holding the position.
    pub open spec fn is_corner_value(
        &self,
        position: (i64, i64),
        dx: int,
        dy: int,
        result: i64,
    ) -> bool {
        self.is_base_value(
            (self.lattice_x(position) + dx) as i32,
            (self.lattice_y(position) + dy) as i32,
            result,
        )
    }

    /// The bilinear cascade over four corner base values: both corner pairs
    /// blended along the first axis, the two row results along the second.
    pub open spec fn blended(
        &self,
        position: (i64, i64),
        b00: i64,
        b10: i64,
        b01: i64,
        b11: i64,
    ) -> int {
        self.interpolator.spec_interpolate(
            self.interpolator.spec_interpolate(
                b00 as int,
                b10 as int,
                self.scaled_x(position) % (SCALE as int),
            ),
            self.interpolator.spec_interpolate(
                b01 as int,
                b11 as int,
                self.scaled_x(position) % (SCALE as int),
            ),
            self.scaled_y(position) % (SCALE as int),
        )
    }

    /// Creates a noise generator for two dimensional noise.
    ///
    /// For a detailed description of the parameters see
    /// [`crate::SmoothNoise1D::new`].
    pub fn new(seed: i32, amplitude: i64, frequency: (i64, i64), interpolator: I, noise: N) -> (r:
        SmoothNoise2D<I, N>)
        requires
            0 <= amplitude <= AMP_LIMIT,
        ensures
            r == (SmoothNoise2D { seed, amplitude, frequency, interpolator, noise }),
    {
        SmoothNoise2D { seed, amplitude, frequency, interpolator, noise }
    }

    /// The base value at the given lattice corner: the base noise at the
    /// mixed corner input, scaled by the amplitude.
    fn base_value(&self, position: (i32, i32)) -> (r: i64)
        requires
            self.wf(),
        ensures
            self.is_base_value(position.0, position.1, r),
            -self.amplitude <= r <= self.amplitude,
    {
        let (x, y) = position;
        let input = (x as u32).wrapping_mul(PRIME_X).wrapping_add(
            (y as u32).wrapping_mul(PRIME_Y),
        ).wrapping_add((self.seed as u32).wrapping_mul(PRIME_SEED));
        let v = self.noise.value(#[verifier::truncate] (input as i32));
        proof {
            assert(-(VAL_LIMIT as int) * (SCALE as int) <= (v as int) * (self.amplitude as int) <= (
            VAL_LIMIT as int) * (SCALE as int) && -(self.amplitude as int) * (SCALE as int) <= (
            v as int) * (self.amplitude as int) <= (self.amplitude as int) * (SCALE as int))
                by (nonlinear_arith)
                requires
                    -SCALE <= v <= SCALE,
                    0 <= self.amplitude <= AMP_LIMIT,
                    SCALE == 1073741824,
                    VAL_LIMIT == 0x4000000000000000,
                    AMP_LIMIT == 0x10000000000,
            ;
            lemma_div_scale_bound((v as int) * (self.amplitude as int), self.amplitude as int);
        }
        let r = mul_fixed(v, self.amplitude);
        proof {
            assert(self.noise.post(lattice_input_2d(self.seed, x, y), v));
            assert(self.is_base_value(x, y, r));
        }
        r
    }
}

impl<I: Interpolator, N: Noise<i32, i64>> Noise<(i64, i64), i64> for SmoothNoise2D<I, N> {
    open spec fn pre(&self, position: (i64, i64)) -> bool {
        &&& self.wf()
        &&& -(VAL_LIMIT as int) * (SCALE as int) <= (position.0 as int) * (self.frequency.0 as int)
            <= (VAL_LIMIT as int) * (SCALE as int)
        &&& -(VAL_LIMIT as int) * (SCALE as int) <= (position.1 as int) * (self.frequency.1 as int)
            <= (VAL_LIMIT as int) * (SCALE as int)
        &&& i32::MIN <= self.lattice_x(position)
        &&& self.lattice_x(position) < i32::MAX
        &&& i32::MIN <= self.lattice_y(position)
        &&& self.lattice_y(position) < i32::MAX
    }

    open spec fn post(&self, position: (i64, i64), result: i64) -> bool {
        &&& exists|b00: i64, b10: i64, b01: i64, b11: i64|
            {
                &&& #[trigger] self.is_corner_value(position, 0, 0, b00)
                &&& #[trigger] self.is_corner_value(position, 1, 0, b10)
                &&& #[trigger] self.is_corner_value(position, 0, 1, b01)
                &&& #[trigger] self.is_corner_value(position, 1, 1, b11)
                &&& result == self.blended(position, b00, b10, b01, b11)
            }
        &&& -self.amplitude <= result <= self.amplitude
    }

    fn value(&self, position: (i64, i64)) -> (result: i64) {
        let (fx, fy) = self.frequency;
        let (rawx, rawy) = position;
        let x = mul_fixed(rawx, fx);
        let y = mul_fixed(rawy, fy);
        let basex = floor_scale(x) as i32;
        let basey = floor_scale(y) as i32;

        let b00 = self.base_value((basex, basey));
        let b10 = self.base_value((basex + 1, basey));
        let b01 = self.base_value((basex, basey + 1));
        let b11 = self.base_value((basex + 1, basey + 1));

        let x_percent = sawtooth(x);
        let y_percent = sawtooth(y);
        let xval_a = self.interpolator.interpolate(b00, b10, x_percent);
        let xval_b = self.interpolator.interpolate(b01, b11, x_percent);
        proof {
            self.interpolator.lemma_bounds(b00 as int, b10 as int, x_percent as int);
            self.interpolator.lemma_bounds(b01 as int, b11 as int, x_percent as int);
        }
        let result = self.interpolator.interpolate(xval_a, xval_b, y_percent);
        proof {
            self.interpolator.lemma_bounds(xval_a as int, xval_b as int, y_percent as int);
            assert(self.post(position, result)) by {
                assert(self.is_corner_value(position, 0, 0, b00) && self.is_corner_value(
                    position,
                    1,
                    0,
                    b10,
                ) && self.is_corner_value(position, 0, 1, b01) && self.is_corner_value(
                    position,
                    1,
                    1,
                    b11,
                ));
            }
        }
        result
    }
}

impl SmoothNoise2D<PerlinInterpolator, DefaultI32Noise> {
    /// Creates a generator for two dimensional smooth noise using sensible
    /// defaults.
    ///
    /// For interpolation the [`PerlinInterpolator`] will be used and as
    /// base noise [`DefaultI32Noise`], seeded with the same seed.
    pub fn new_default(seed: i32, amplitude: i64, frequency: (i64, i64)) -> (r: SmoothNoise2D<
        PerlinInterpolator,
        DefaultI32Noise,
    >)
        requires
            0 <= amplitude <= AMP_LIMIT,
        ensures
            r.seed == seed,
            r.amplitude == amplitude,
            r.frequency == frequency,
            r.noise.seed == crate::default_noise::mix_seed(seed as u32) as i32,
            r.wf(),
    {
        SmoothNoise2D::new(seed, amplitude, frequency, PerlinInterpolator, DefaultI32Noise::new(seed))
    }
}

/// A two dimensional smooth-noise generator whose base noise is
/// deterministic is itself deterministic: equal fields and equal positions
/// give bit-identical output.
pub proof fn lemma_smooth_noise_2d_deterministic<I: Interpolator, N: Noise<i32, i64>>(
    noise: SmoothNoise2D<I, N>,
)
    requires
        deterministic::<i32, i64, N>(noise.noise),
    ensures
        deterministic::<(i64, i64), i64, SmoothNoise2D<I, N>>(noise),
{
    assert forall|position: (i64, i64), r1: i64, r2: i64|
        noise.post(position, r1) && noise.post(position, r2) implies r1 == r2 by {
        let (c00, c10, c01, c11) = choose|b00: i64, b10: i64, b01: i64, b11: i64|
            {
                &&& #[trigger] noise.is_corner_value(position, 0, 0, b00)
                &&& #[trigger] noise.is_corner_value(position, 1, 0, b10)
                &&& #[trigger] noise.is_corner_value(position, 0, 1, b01)
                &&& #[trigger] noise.is_corner_value(position, 1, 1, b11)
                &&& r1 == noise.blended(position, b00, b10, b01, b11)
            };
        let (d00, d10, d01, d11) = choose|b00: i64, b10: i64, b01: i64, b11: i64|
            {
                &&& #[trigger] noise.is_corner_value(position, 0, 0, b00)
                &&& #[trigger] noise.is_corner_value(position, 1, 0, b10)
                &&& #[trigger] noise.is_corner_value(position, 0, 1, b01)
                &&& #[trigger] noise.is_corner_value(position, 1, 1, b11)
                &&& r2 == noise.blended(position, b00, b10, b01, b11)
            };
        lemma_corner_value_deterministic(noise, position, 0, 0, c00, d00);
        lemma_corner_value_deterministic(noise, position, 1, 0, c10, d10);
        lemma_corner_value_deterministic(noise, position, 0, 1, c01, d01);
        lemma_corner_value_deterministic(noise, position, 1, 1, c11, d11);
    }
}

/// Two base values of one lattice corner agree when the base noise is
/// deterministic.
proof fn lemma_corner_value_deterministic<I: Interpolator, N: Noise<i32, i64>>(
    noise: SmoothNoise2D<I, N>,
    position: (i64, i64),
    dx: int,
    dy: int,
    r1: i64,
    r2: i64,
)
    requires
        deterministic::<i32, i64, N>(noise.noise),
        noise.is_corner_value(position, dx, dy, r1),
        noise.is_corner_value(position, dx, dy, r2),
    ensures
        r1 == r2,
{
    let x = (noise.lattice_x(position) + dx) as i32;
    let y = (noise.lattice_y(position) + dy) as i32;
    let v1 = choose|v: i64|
        #[trigger] noise.noise.post(lattice_input_2d(noise.seed, x, y), v) && r1 == spec_mul_fixed(
            v as int,
            noise.amplitude as int,
        );
    let v2 = choose|v: i64|
        #[trigger] noise.noise.post(lattice_input_2d(noise.seed, x, y), v) && r2 == spec_mul_fixed(
            v as int,
            noise.amplitude as int,
        );
    assert(v1 == v2);
}

} // verus!
