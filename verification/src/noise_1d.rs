//! Generator for one dimensional smooth noise.

use vstd::prelude::*;

use crate::default_noise::DefaultI32Noise;
use crate::fixed::{
    floor_scale, lemma_div_scale_bound, mul_fixed, spec_mul_fixed, SCALE, VAL_LIMIT,
};
use crate::interpolate::{sawtooth, Interpolator, PerlinInterpolator};
use crate::noise::{deterministic, Noise};

verus! {

/// Large odd factor mixed into the lattice index before the base-noise
/// lookup.
pub const PRIME_POSITION: u32 = 999961;

/// Large odd factor mixed into the seed before the base-noise lookup.
pub const PRIME_SEED: u32 = 748361;

/// Cap on amplitudes (two to the fortieth, about a thousand in real terms):
/// keeps every product of a base-noise value and an amplitude far inside
/// the interpolators' admissible range.
pub const AMP_LIMIT: i64 = 0x10000000000;

/// The base-noise position for the lattice point `index` under `seed`:
/// `PRIME_POSITION * index + PRIME_SEED * seed` in wrapping 32-bit
/// arithmetic.
pub open spec fn lattice_input(seed: i32, index: i32) -> i32 {
    (index as u32).wrapping_mul(PRIME_POSITION).wrapping_add(
        (seed as u32).wrapping_mul(PRIME_SEED),
    ) as i32
}

/// Generator for one dimensional smooth noise.
///
/// Combines a base noise (hash noise at the integer lattice points) with an
/// interpolation strategy: the value at a position is the blend of the two
/// neighbouring lattice base values at the position's fractional part.  The
/// result always lies in `[-amplitude, amplitude]`.
pub struct SmoothNoise1D<I, N> {
    /// Identifies the noise pattern: equal seeds give bit-identical noise.
    pub seed: i32,

    /// The resulting noise lies between `-amplitude` and `amplitude`.
    pub amplitude: i64,

    /// Fixed-point scale factor applied to positions before the lattice
    /// lookup: one full lattice period per unit of input at frequency one.
    pub frequency: i64,

    /// The interpolation strategy blending neighbouring lattice values.
    pub interpolator: I,

    /// The base noise sampled at the lattice points.
    pub noise: N,
}

impl<I: Interpolator, N: Noise<i32, i64>> SmoothNoise1D<I, N> {
    /// Structural validity: the amplitude is a nonnegative fixed-point
    /// scalar within [`AMP_LIMIT`], and the base noise accepts every
    /// position and stays within one unit of zero.
    pub open spec fn wf(&self) -> bool {
        &&& 0 <= self.amplitude <= AMP_LIMIT
        &&& forall|p: i32| #[trigger] self.noise.pre(p)
        &&& forall|p: i32, v: i64| #[trigger] self.noise.post(p, v) ==> -SCALE <= v <= SCALE
    }

    /// The position after frequency scaling.
    pub open spec fn scaled(&self, position: i64) -> int {
        spec_mul_fixed(position as int, self.frequency as int)
    }

    /// The lattice cell holding the scaled position.
    pub open spec fn lattice_index(&self, position: i64) -> int {
        self.scaled(position) / (SCALE as int)
    }

    /// The base value at a lattice index is `v * amplitude` for a base
    /// noise value `v` at the mixed lattice input.
    pub open spec fn is_base_value(&self, index: i32, result: i64) -> bool {
        exists|v: i64|
            #[trigger] self.noise.post(lattice_input(self.seed, index), v) && result
                == spec_mul_fixed(v as int, self.amplitude as int)
    }

    /// Initializes a generator for one dimensional smooth noise.
    ///
    /// # Parameters
    ///
    /// * `seed`: the same `seed` always results in the same noise pattern.
    /// * `amplitude`: the resulting noise will be in the range
    ///   `-amplitude` to `amplitude` (both borders inclusive).
    /// * `frequency`: a frequency of one means that the monotony of the
    ///   resulting noise stays consistent for at least one unit.  A high
    ///   frequency results in "chaotic" noise, a lower frequency in
    ///   "cloudy" noise.
    /// * `interpolator`: the interpolation strategy to be used.
    /// * `noise`: the base noise to be used.  [`DefaultI32Noise`] works
    ///   fine.
    pub fn new(seed: i32, amplitude: i64, frequency: i64, interpolator: I, noise: N) -> (r:
        SmoothNoise1D<I, N>)
        requires
            0 <= amplitude <= AMP_LIMIT,
        ensures
            r == (SmoothNoise1D { seed, amplitude, frequency, interpolator, noise }),
    {
        SmoothNoise1D { seed, amplitude, frequency, interpolator, noise }
    }

    /// The base value at the given lattice index: the base noise at the
    /// mixed lattice input, scaled by the amplitude.
    fn base_value(&self, index: i32) -> (r: i64)
        requires
            self.wf(),
        ensures
            self.is_base_value(index, r),
            -self.amplitude <= r <= self.amplitude,
    {
        let input = (index as u32).wrapping_mul(PRIME_POSITION).wrapping_add(
            (self.seed as u32).wrapping_mul(PRIME_SEED),
        );
        let v = self.noise.value(#[verifier::truncate] (input as i32));
        proof {
            assert(-(VAL_LIMIT as int) * (SCALE as int) <= (v as int) * (self.amplitude as int) <= (
            VAL_LIMIT as int) * (SCALE as int) && -(self.amplitude as int) * (SCALE as int) <= (
            v as int) * (self.amplitude as int) <= (self.amplitude as int) * (SCALE as int))
                by (nonlinear_arith)
                requires
                    -SCALE <= v <= SCALE,
                    0 <= self.amplitude <= AMP_LIMIT,
                    SCALE == 1073741824,
                    VAL_LIMIT == 0x4000000000000000,
                    AMP_LIMIT == 0x10000000000,
            ;
            lemma_div_scale_bound((v as int) * (self.amplitude as int), self.amplitude as int);
        }
        let r = mul_fixed(v, self.amplitude);
        proof {
            assert(self.noise.post(lattice_input(self.seed, index), v));
            assert(self.is_base_value(index, r));
        }
        r
    }
}

impl<I: Interpolator, N: Noise<i32, i64>> Noise<i64, i64> for SmoothNoise1D<I, N> {
    open spec fn pre(&self, position: i64) -> bool {
        &&& self.wf()
        &&& -(VAL_LIMIT as int) * (SCALE as int) <= (position as int) * (self.frequency as int)
            <= (VAL_LIMIT as int) * (SCALE as int)
        &&& i32::MIN <= self.lattice_index(position)
        &&& self.lattice_index(position) < i32::MAX
    }

    open spec fn post(&self, position: i64, result: i64) -> bool {
        &&& exists|a: i64, b: i64|
            {
                &&& #[trigger] self.is_base_value(self.lattice_index(position) as i32, a)
                &&& #[trigger] self.is_base_value((self.lattice_index(position) + 1) as i32, b)
                &&& result == self.interpolator.spec_interpolate(
                    a as int,
                    b as int,
                    self.scaled(position) % (SCALE as int),
                )
            }
        &&& -self.amplitude <= result <= self.amplitude
    }

    fn value(&self, position: i64) -> (result: i64) {
        let position_scaled = mul_fixed(position, self.frequency);
        let base_value_index = floor_scale(position_scaled);
        let index = base_value_index as i32;
        let base_value_a = self.base_value(index);
        let base_value_b = self.base_value(index + 1);
        let percent = sawtooth(position_scaled);
        let result = self.interpolator.interpolate(base_value_a, base_value_b, percent);
        proof {
            self.interpolator.lemma_bounds(
                base_value_a as int,
                base_value_b as int,
                percent as int,
            );
            assert(self.post(position, result)) by {
                assert(self.is_base_value(self.lattice_index(position) as i32, base_value_a)
                    && self.is_base_value((self.lattice_index(position) + 1) as i32, base_value_b));
            }
        }
        result
    }
}

impl SmoothNoise1D<PerlinInterpolator, DefaultI32Noise> {
    /// Initializes a generator for one dimensional smooth noise using
    /// sensible defaults.
    ///
    /// This generator will use [`PerlinInterpolator`] as interpolator and
    /// [`DefaultI32Noise`], seeded with the same seed, as base noise.
    ///
    /// See [`SmoothNoise1D::new`] for a description of the parameters.
    pub fn new_default(seed: i32, amplitude: i64, frequency: i64) -> (r: SmoothNoise1D<
        PerlinInterpolator,
        DefaultI32Noise,
    >)
        requires
            0 <= amplitude <= AMP_LIMIT,
        ensures
            r.seed == seed,
            r.amplitude == amplitude,
            r.frequency == frequency,
            r.noise.seed == crate::default_noise::mix_seed(seed as u32) as i32,
            r.wf(),
    {
        SmoothNoise1D::new(seed, amplitude, frequency, PerlinInterpolator, DefaultI32Noise::new(seed))
    }
}

/// A smooth-noise generator whose base noise is deterministic is itself
/// deterministic: its contract pins the value at every position down to a
/// single result, so two independently constructed generators with equal
/// fields agree everywhere.
pub proof fn lemma_smooth_noise_1d_deterministic<I: Interpolator, N: Noise<i32, i64>>(
    noise: SmoothNoise1D<I, N>,
)
    requires
        deterministic::<i32, i64, N>(noise.noise),
    ensures
        deterministic::<i64, i64, SmoothNoise1D<I, N>>(noise),
{
    assert forall|position: i64, r1: i64, r2: i64|
        noise.post(position, r1) && noise.post(position, r2) implies r1 == r2 by {
        let idx = noise.lattice_index(position) as i32;
        let nxt = (noise.lattice_index(position) + 1) as i32;
        let (a1, b1) = choose|a: i64, b: i64|
            {
                &&& #[trigger] noise.is_base_value(idx, a)
                &&& #[trigger] noise.is_base_value(nxt, b)
                &&& r1 == noise.interpolator.spec_interpolate(
                    a as int,
                    b as int,
                    noise.scaled(position) % (SCALE as int),
                )
            };
        let (a2, b2) = choose|a: i64, b: i64|
            {
                &&& #[trigger] noise.is_base_value(idx, a)
                &&& #[trigger] noise.is_base_value(nxt, b)
                &&& r2 == noise.interpolator.spec_interpolate(
                    a as int,
                    b as int,
                    noise.scaled(position) % (SCALE as int),
                )
            };
        let v1a = choose|v: i64|
            #[trigger] noise.noise.post(lattice_input(noise.seed, idx), v) && a1 == spec_mul_fixed(
                v as int,
                noise.amplitude as int,
            );
        let v2a = choose|v: i64|
            #[trigger] noise.noise.post(lattice_input(noise.seed, idx), v) && a2 == spec_mul_fixed(
                v as int,
                noise.amplitude as int,
            );
        let v1b = choose|v: i64|
            #[trigger] noise.noise.post(lattice_input(noise.seed, nxt), v) && b1 == spec_mul_fixed(
                v as int,
                noise.amplitude as int,
            );
        let v2b = choose|v: i64|
            #[trigger] noise.noise.post(lattice_input(noise.seed, nxt), v) && b2 == spec_mul_fixed(
                v as int,
                noise.amplitude as int,
            );
        assert(v1a == v2a && v1b == v2b);
    }
}

} // verus!
