//! Creates noise by combining multiple source noises.

use std::marker::PhantomData;

use vstd::prelude::*;

use crate::noise::Noise;

verus! {

/// The chained reduction over the first `n + 1` sources: the first
/// source's value, folded left to right with each following source's value
/// through `combine`.  The reduction order is fixed by the list order.
pub open spec fn combined_post<In, Out, Combine: Fn(Out, Out) -> Out>(
    sources: Seq<Box<dyn Noise<In, Out>>>,
    combine: Combine,
    position: In,
    n: int,
    result: Out,
) -> bool
    decreases n,
{
    if n <= 0 {
        sources[0].post(position, result)
    } else {
        exists|acc: Out, v: Out|
            {
                &&& combined_post(sources, combine, position, n - 1, acc)
                &&& sources[n].post(position, v)
                &&& #[trigger] call_ensures(combine, (acc, v), result)
            }
    }
}

/// Every partial reduction is ready for the next combining step: whatever
/// value the reduction over the first `n` sources took, and whatever the
/// next source hands back, `combine` accepts the pair.
pub open spec fn combine_accepts<In, Out, Combine: Fn(Out, Out) -> Out>(
    sources: Seq<Box<dyn Noise<In, Out>>>,
    combine: Combine,
    position: In,
) -> bool {
    forall|n: int, acc: Out, v: Out|
        #![trigger combined_post(sources, combine, position, n - 1, acc), sources[n].post(position, v)]
        1 <= n < sources.len() && combined_post(sources, combine, position, n - 1, acc)
            && sources[n].post(position, v) ==> call_requires(combine, (acc, v))
}

/// Creates noise by combining multiple source noises.
///
/// This noise uses trait objects to manage the multiple source noises: the
/// ordered list may mix generator types.  The sources' values are reduced
/// left to right with the binary `combine` function; the reduction order
/// is fixed by the list order.
#[verifier::reject_recursive_types(In)]
#[verifier::reject_recursive_types(Out)]
pub struct CombinedNoise<In, Out, Combine> {
    /// The ordered, non-empty list of source generators.
    pub sources: Vec<Box<dyn Noise<In, Out>>>,

    /// The binary reduction combining two values into one.
    pub combine: Combine,
}

impl<In, Out, Combine: Fn(Out, Out) -> Out> CombinedNoise<In, Out, Combine> {
    /// Creates a combined noise over the given non-empty source list.
    /// Constructing a combined noise over an empty list is a programmer
    /// error, ruled out by the precondition.
    pub fn new(sources: Vec<Box<dyn Noise<In, Out>>>, combine: Combine) -> (r: CombinedNoise<
        In,
        Out,
        Combine,
    >)
        requires
            sources.len() > 0,
        ensures
            r.sources == sources,
            r.combine == combine,
    {
        CombinedNoise { sources, combine }
    }
}

impl<In: Copy, Out, Combine: Fn(Out, Out) -> Out> Noise<In, Out> for CombinedNoise<
    In,
    Out,
    Combine,
> {
    open spec fn pre(&self, position: In) -> bool {
        &&& self.sources@.len() > 0
        &&& forall|i: int|
            0 <= i < self.sources@.len() ==> (#[trigger] self.sources@[i]).pre(position)
        &&& combine_accepts(self.sources@, self.combine, position)
    }

    open spec fn post(&self, position: In, result: Out) -> bool {
        combined_post(
            self.sources@,
            self.combine,
            position,
            self.sources@.len() - 1,
            result,
        )
    }

    fn value(&self, position: In) -> (result: Out) {
        let mut value = self.sources[0].value(position);
        let mut i: usize = 1;
        while i < self.sources.len()
            invariant
                1 <= i <= self.sources@.len(),
                self.pre(position),
                combined_post(self.sources@, self.combine, position, i - 1, value),
            decreases self.sources@.len() - i,
        {
            let ghost acc = value;
            let v = self.sources[i].value(position);
            let ghost v0 = v;
            value = (self.combine)(value, v);
            proof {
                assert(combined_post(self.sources@, self.combine, position, i - 1, acc)
                    && self.sources@[i as int].post(position, v0) && call_ensures(
                    self.combine,
                    (acc, v0),
                    value,
                ));
            }
            i = i + 1;
        }
        value
    }
}

/// Creates a noise that combines two source noises.
///
/// This generator does not use trait objects, but static dispatch: the two
/// sources are held by value and may have different output types.
pub struct CombinedNoise2<In, Out, Src1Out, Src2Out, Src1, Src2, Combine> {
    /// The first source generator.
    pub source1: Src1,

    /// The second source generator.
    pub source2: Src2,

    /// The binary function combining the two values into one.
    pub combine: Combine,

    /// Marks the position type and the three value types the combination
    /// runs through.
    pub types: PhantomData<(In, Out, Src1Out, Src2Out)>,
}

impl<In, Out, Src1Out, Src2Out, Src1, Src2, Combine> CombinedNoise2<
    In,
    Out,
    Src1Out,
    Src2Out,
    Src1,
    Src2,
    Combine,
> {
    /// Creates a combined noise over the two sources.
    pub fn new(source1: Src1, source2: Src2, combine: Combine) -> (r: CombinedNoise2<
        In,
        Out,
        Src1Out,
        Src2Out,
        Src1,
        Src2,
        Combine,
    >)
        ensures
            r.source1 == source1,
            r.source2 == source2,
            r.combine == combine,
    {
        CombinedNoise2 { source1, source2, combine, types: PhantomData }
    }
}

impl<
    In: Copy,
    Out,
    Src1Out,
    Src2Out,
    Src1: Noise<In, Src1Out>,
    Src2: Noise<In, Src2Out>,
    Combine: Fn(Src1Out, Src2Out) -> Out,
> Noise<In, Out> for CombinedNoise2<In, Out, Src1Out, Src2Out, Src1, Src2, Combine> {
    open spec fn pre(&self, position: In) -> bool {
        &&& self.source1.pre(position)
        &&& self.source2.pre(position)
        &&& forall|v1: Src1Out, v2: Src2Out|
            self.source1.post(position, v1) && self.source2.post(position, v2)
                ==> #[trigger] call_requires(self.combine, (v1, v2))
    }

    open spec fn post(&self, position: In, result: Out) -> bool {
        exists|v1: Src1Out, v2: Src2Out|
            {
                &&& self.source1.post(position, v1)
                &&& self.source2.post(position, v2)
                &&& #[trigger] call_ensures(self.combine, (v1, v2), result)
            }
    }

    fn value(&self, position: In) -> (result: Out) {
        let value1 = self.source1.value(position);
        let value2 = self.source2.value(position);
        let ghost w1 = value1;
        let ghost w2 = value2;
        let result = (self.combine)(value1, value2);
        proof {
            assert(self.source1.post(position, w1) && self.source2.post(position, w2)
                && call_ensures(self.combine, (w1, w2), result));
        }
        result
    }
}

} // verus!
