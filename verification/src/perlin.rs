//! Octave composition: Perlin-style noise as a sum of smooth-noise
//! octaves.

use vstd::prelude::*;

use crate::noise::Noise;
use crate::noise_1d::AMP_LIMIT;

verus! {

/// Cap on the number of octaves (two to the twentieth): together with
/// [`AMP_LIMIT`] it keeps the octave sum inside an `i64`.
pub const MAX_OCTAVES: usize = 0x100000;

/// The sum of the first `n + 1` octave values at `position`, added left to
/// right in list order.
pub open spec fn octave_sum<P, N: Noise<P, i64>>(
    octaves: Seq<N>,
    position: P,
    n: int,
    result: int,
) -> bool
    decreases n,
{
    if n <= 0 {
        exists|v: i64| #[trigger] octaves[0].post(position, v) && result == v
    } else {
        exists|v: i64|
            #[trigger] octaves[n].post(position, v) && octave_sum(
                octaves,
                position,
                n - 1,
                result - v,
            )
    }
}

/// This is a noise generator that combines noise generators.
///
/// This generator creates noise that is commonly known as "Perlin noise":
/// multiple smooth noises — the octaves, typically of decreasing amplitude
/// and increasing frequency — are added together, in list order.  No
/// normalization is performed: the highest possible value is the sum of
/// the octaves' amplitudes, and callers choose the amplitudes so that the
/// sum stays in a usable range (halving the amplitude while doubling the
/// frequency per octave is the conventional choice).
pub struct PerlinNoise<N> {
    /// The ordered, non-empty list of octaves.
    pub octaves: Vec<N>,
}

impl<N> PerlinNoise<N> {
    /// Creates a Perlin noise generator using the given noise generators.
    /// Constructing one over an empty octave list is a programmer error,
    /// ruled out by the precondition.
    pub fn new(octaves: Vec<N>) -> (r: PerlinNoise<N>)
        requires
            octaves.len() > 0,
        ensures
            r == (PerlinNoise { octaves }),
    {
        PerlinNoise { octaves }
    }
}

impl<P: Copy, N: Noise<P, i64>> Noise<P, i64> for PerlinNoise<N> {
    open spec fn pre(&self, position: P) -> bool {
        &&& 0 < self.octaves@.len() <= MAX_OCTAVES
        &&& forall|i: int|
            0 <= i < self.octaves@.len() ==> (#[trigger] self.octaves@[i]).pre(position)
        &&& forall|i: int, v: i64|
            0 <= i < self.octaves@.len() && (#[trigger] self.octaves@[i].post(position, v))
                ==> -AMP_LIMIT <= v <= AMP_LIMIT
    }

    open spec fn post(&self, position: P, result: i64) -> bool {
        &&& octave_sum(self.octaves@, position, self.octaves@.len() - 1, result as int)
        &&& -(self.octaves@.len() as int) * (AMP_LIMIT as int) <= result
            <= (self.octaves@.len() as int) * (AMP_LIMIT as int)
    }

    fn value(&self, position: P) -> (result: i64) {
        let mut result = self.octaves[0].value(position);
        let mut i: usize = 1;
        while i < self.octaves.len()
            invariant
                1 <= i <= self.octaves@.len(),
                self.pre(position),
                octave_sum(self.octaves@, position, i - 1, result as int),
                -(i as int) * (AMP_LIMIT as int) <= result <= (i as int) * (AMP_LIMIT as int),
            decreases self.octaves@.len() - i,
        {
            let ghost acc = result as int;
            let v = self.octaves[i].value(position);
            proof {
                assert((i as int) * (AMP_LIMIT as int) + AMP_LIMIT == ((i + 1) as int) * (
                AMP_LIMIT as int) && ((i + 1) as int) * (AMP_LIMIT as int) <= (MAX_OCTAVES as int)
                    * (AMP_LIMIT as int)) by (nonlinear_arith)
                    requires
                        1 <= i < MAX_OCTAVES,
                        AMP_LIMIT == 0x10000000000,
                        MAX_OCTAVES == 0x100000,
                ;
            }
            result = result + v;
            proof {
                assert(self.octaves@[i as int].post(position, v) && octave_sum(
                    self.octaves@,
                    position,
                    i - 1,
                    result - v,
                ));
            }
            i = i + 1;
        }
        proof {
            vstd::arithmetic::mul::lemma_mul_inequality(
                i as int,
                self.octaves@.len() as int,
                AMP_LIMIT as int,
            );
            assert((i as int) * (AMP_LIMIT as int) <= (self.octaves@.len() as int) * (
            AMP_LIMIT as int));
        }
        result
    }
}

/// The octave sum never leaves the band given by per-octave bounds: if
/// every octave's contract keeps its value within `bounds[i]` of zero, the
/// sum over the first `n + 1` octaves stays within the sum of those
/// bounds.  This is the general form behind the conventional amplitude
/// choice: octaves with amplitudes summing to `s` compose to noise within
/// `[-s, s]`.
pub proof fn lemma_octave_sum_bounded<P, N: Noise<P, i64>>(
    octaves: Seq<N>,
    position: P,
    bounds: Seq<int>,
    n: int,
    result: int,
)
    requires
        0 <= n < octaves.len(),
        bounds.len() == octaves.len(),
        forall|i: int, v: i64|
            0 <= i < octaves.len() && (#[trigger] octaves[i].post(position, v)) ==> -bounds[i] <= v
                <= bounds[i],
        octave_sum(octaves, position, n, result),
    ensures
        -bound_sum(bounds, n) <= result <= bound_sum(bounds, n),
    decreases n,
{
    if n <= 0 {
        let v = choose|v: i64| #[trigger] octaves[0].post(position, v) && result == v;
    } else {
        let v = choose|v: i64|
            #[trigger] octaves[n].post(position, v) && octave_sum(
                octaves,
                position,
                n - 1,
                result - v,
            );
        lemma_octave_sum_bounded(octaves, position, bounds, n - 1, result - v);
    }
}

/// The sum of the first `n + 1` entries of `bounds`.
pub open spec fn bound_sum(bounds: Seq<int>, n: int) -> int
    decreases n,
{
    if n <= 0 {
        bounds[0]
    } else {
        bound_sum(bounds, n - 1) + bounds[n]
    }
}

} // verus!
