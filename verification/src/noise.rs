//! The common generator interface.

use vstd::prelude::*;

verus! {

/// A common interface for all structs that can generate noise.
///
/// A generator maps a position of type `In` to a scalar (or tuple) of type
/// `Out`.  `pre` says which positions the generator accepts; `post` relates
/// a position to every result `value` may hand back for it.  Generators
/// whose `post` admits exactly one result per position are deterministic in
/// the strongest sense: see [`deterministic`].
pub trait Noise<In, Out> {
    /// Positions this generator accepts.
    spec fn pre(&self, position: In) -> bool;

    /// Relation between a position and every result `value` may return for it.
    spec fn post(&self, position: In, result: Out) -> bool;

    /// Calculates the value of the noise function at the given position.
    ///
    /// The noise for a position never changes.
    fn value(&self, position: In) -> (result: Out)
        requires
            self.pre(position),
        ensures
            self.post(position, result),
    ;
}

/// Holds when the generator's contract pins the result down to a single
/// value for every position: two calls at equal positions — also on two
/// independently constructed but equal generators — return equal results.
pub open spec fn deterministic<In, Out, N: Noise<In, Out>>(noise: N) -> bool {
    forall|position: In, r1: Out, r2: Out|
        #![trigger noise.post(position, r1), noise.post(position, r2)]
        noise.post(position, r1) && noise.post(position, r2) ==> r1 == r2
}

/// Two generators built from identical constructor arguments are equal
/// values; when their contract is deterministic, they produce
/// bit-identical output at every position.
pub proof fn lemma_equal_generators_agree<In, Out, N: Noise<In, Out>>(
    n1: N,
    n2: N,
    position: In,
    r1: Out,
    r2: Out,
)
    requires
        n1 == n2,
        deterministic::<In, Out, N>(n1),
        n1.post(position, r1),
        n2.post(position, r2),
    ensures
        r1 == r2,
{
}

} // verus!
