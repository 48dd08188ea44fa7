//! The basic building-block generators: integer hash noise and the trivial
//! constant, identity and box-unwrapping generators.

use vstd::prelude::*;

use crate::fixed::SCALE;
use crate::noise::Noise;

verus! {

/// Large odd factor mixed into the lattice position before hashing.
pub const PRIME_POSITION: u32 = 999961;

/// Large odd factor used to scramble the seed at construction time.
pub const PRIME_SEED: u32 = 748361;

/// The seed scramble applied once at construction: the seed is multiplied
/// by [`PRIME_SEED`] and folded with a shifted copy of itself, all in
/// wrapping 32-bit arithmetic.
pub open spec fn mix_seed(seed: u32) -> u32 {
    seed.wrapping_mul(PRIME_SEED) ^ (seed << 13u32)
}

/// The polynomial integer hash: fold `key` with a shifted copy, run it
/// through a cubic polynomial in wrapping 32-bit arithmetic, and mask the
/// sign bit away.  The result is always in `[0, 2^31)`.
pub open spec fn scramble(key: u32) -> u32 {
    let b = (key << 13u32) ^ key;
    b.wrapping_mul(b.wrapping_mul(b).wrapping_mul(60493u32).wrapping_add(19990303u32))
        .wrapping_add(1376312589u32) & 0x7fffffffu32
}

/// The hash-noise value at `position` under the mixed seed, as a
/// fixed-point scalar: one minus the scrambled key divided by `2^30`,
/// which always lies in `(-SCALE, SCALE]` — that is, in `(-1, 1]`.
pub open spec fn hash_value(mixed_seed: u32, position: u32) -> int {
    (SCALE as int) - scramble(position.wrapping_mul(PRIME_POSITION).wrapping_add(mixed_seed)) as int
}

/// The masked scramble output never reaches `2^31`, so the hash-noise value
/// lies within one of zero on either side.
pub proof fn lemma_hash_value_in_range(mixed_seed: u32, position: u32)
    ensures
        -SCALE < hash_value(mixed_seed, position) <= SCALE,
{
    let key = position.wrapping_mul(PRIME_POSITION).wrapping_add(mixed_seed);
    let b = (key << 13u32) ^ key;
    let m = b.wrapping_mul(b.wrapping_mul(b).wrapping_mul(60493u32).wrapping_add(19990303u32))
        .wrapping_add(1376312589u32);
    assert(m & 0x7fffffffu32 < 0x80000000u32) by (bit_vector);
    assert(scramble(key) == m & 0x7fffffffu32);
}

/// Generator for pseudo-random integer noise.
///
/// A deterministic hash from a 32-bit lattice position to a fixed-point
/// scalar in `(-1, 1]`.  All intermediate arithmetic wraps around in 32
/// bits; the wrap-around is part of the statistical design.
pub struct DefaultI32Noise {
    /// The seed as scrambled by [`mix_seed`] at construction.
    pub seed: i32,
}

impl DefaultI32Noise {
    /// Creates a hash-noise generator for the given seed.  Equal seeds give
    /// generators with bit-identical output at every position.
    pub fn new(seed: i32) -> (r: DefaultI32Noise)
        ensures
            r.seed == mix_seed(seed as u32) as i32,
    {
        let s = seed as u32;
        let mixed = s.wrapping_mul(PRIME_SEED) ^ (s << 13u32);
        DefaultI32Noise { seed: #[verifier::truncate] (mixed as i32) }
    }
}

impl Noise<i32, i64> for DefaultI32Noise {
    open spec fn pre(&self, position: i32) -> bool {
        true
    }

    open spec fn post(&self, position: i32, result: i64) -> bool {
        &&& result == hash_value(self.seed as u32, position as u32)
        &&& -SCALE < result <= SCALE
    }

    fn value(&self, position: i32) -> (result: i64) {
        let mixed = self.seed as u32;
        let key = (position as u32).wrapping_mul(PRIME_POSITION).wrapping_add(mixed);
        let b = (key << 13u32) ^ key;
        let m = b.wrapping_mul(b.wrapping_mul(b).wrapping_mul(60493u32).wrapping_add(19990303u32))
            .wrapping_add(1376312589u32);
        let c = m & 0x7fffffffu32;
        proof {
            lemma_hash_value_in_range(mixed, position as u32);
            assert(c == scramble(key));
        }
        SCALE - (c as i64)
    }
}

/// The hash-noise contract determines the result: it is a function of the
/// seed and the position alone.
pub proof fn lemma_default_i32_noise_deterministic(noise: DefaultI32Noise)
    ensures
        crate::noise::deterministic::<i32, i64, DefaultI32Noise>(noise),
{
}

/// Generator that always returns the same value.
pub struct ConstantNoise<Out> {
    /// The value handed back at every position.
    pub value: Out,
}

impl<Out: Copy> ConstantNoise<Out> {
    /// Creates a generator that returns `value` at every position.
    pub fn new(value: Out) -> (r: ConstantNoise<Out>)
        ensures
            r.value == value,
    {
        ConstantNoise { value }
    }
}

impl<In, Out: Copy> Noise<In, Out> for ConstantNoise<Out> {
    open spec fn pre(&self, position: In) -> bool {
        true
    }

    open spec fn post(&self, position: In, result: Out) -> bool {
        result == self.value
    }

    fn value(&self, position: In) -> (result: Out) {
        self.value
    }
}

/// Generator that always returns the position parameter unchanged.
pub struct NoOpNoise;

impl<In> Noise<In, In> for NoOpNoise {
    open spec fn pre(&self, position: In) -> bool {
        true
    }

    open spec fn post(&self, position: In, result: In) -> bool {
        result == position
    }

    fn value(&self, position: In) -> (result: In) {
        position
    }
}

/// Wrapper that can be used to use `Box<dyn Noise<...>>` as source to other
/// building blocks.
///
/// The wrapper's contract is exactly the contract of the generator inside
/// the box.
#[verifier::reject_recursive_types(In)]
#[verifier::reject_recursive_types(Out)]
pub struct UnboxNoise<In, Out> {
    /// The boxed, dynamically dispatched source generator, held as the
    /// single element of a vector: the verifier carries a vector's
    /// contents across datatype construction, where it loses track of a
    /// bare boxed trait object.
    pub source: Vec<Box<dyn Noise<In, Out>>>,
}

impl<In, Out> UnboxNoise<In, Out> {
    /// Wraps the boxed generator; the wrapper holds exactly one box.
    ///
    /// The verifier cannot follow the identity of a bare boxed trait
    /// object through this move, so this constructor pins only the count;
    /// a verified caller who needs the wrapper's full contract builds the
    /// one-element vector itself and uses [`UnboxNoise::from_vec`].
    pub fn new(source: Box<dyn Noise<In, Out>>) -> (r: UnboxNoise<In, Out>)
        ensures
            r.source@.len() == 1,
    {
        UnboxNoise { source: vec![source] }
    }

    /// Wraps the boxed generator held as the single element of `source`;
    /// the wrapper holds exactly that vector, so its contract is exactly
    /// the contract of the generator inside the box.
    pub fn from_vec(source: Vec<Box<dyn Noise<In, Out>>>) -> (r: UnboxNoise<In, Out>)
        requires
            source.len() == 1,
        ensures
            r.source == source,
    {
        UnboxNoise { source }
    }
}

impl<In, Out> Noise<In, Out> for UnboxNoise<In, Out> {
    open spec fn pre(&self, position: In) -> bool {
        self.source@.len() == 1 && self.source@[0].pre(position)
    }

    open spec fn post(&self, position: In, result: Out) -> bool {
        self.source@[0].post(position, result)
    }

    fn value(&self, position: In) -> (result: Out) {
        self.source[0].value(position)
    }
}

} // verus!
