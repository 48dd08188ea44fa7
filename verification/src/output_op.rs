//! Applies an operation to the output of the source noise.

use std::marker::PhantomData;

use vstd::prelude::*;

use crate::noise::Noise;

verus! {

/// Applies an operation to the output of the source noise.
///
/// `value(p)` is `op(source.value(p))`: the wrapped generator's result,
/// remapped through the pure mapping function `op`.
pub struct OutputOp<Src, Op, Mid> {
    /// The wrapped source generator.
    pub source: Src,

    /// The mapping applied to every source result.
    pub op: Op,

    /// Marks the source's output type, which only the mapping consumes.
    pub mid: PhantomData<Mid>,
}

impl<Src, Op, Mid> OutputOp<Src, Op, Mid> {
    /// Wraps `source`, remapping each of its results through `op`.
    pub fn new(source: Src, op: Op) -> (r: OutputOp<Src, Op, Mid>)
        ensures
            r.source == source,
            r.op == op,
    {
        OutputOp { source, op, mid: PhantomData }
    }
}

impl<In, Mid, Out, Src: Noise<In, Mid>, Op: Fn(Mid) -> Out> Noise<In, Out> for OutputOp<
    Src,
    Op,
    Mid,
> {
    open spec fn pre(&self, position: In) -> bool {
        &&& self.source.pre(position)
        &&& forall|mid: Mid| #[trigger]
            self.source.post(position, mid) ==> call_requires(self.op, (mid,))
    }

    open spec fn post(&self, position: In, result: Out) -> bool {
        exists|mid: Mid| #[trigger]
            self.source.post(position, mid) && call_ensures(self.op, (mid,), result)
    }

    fn value(&self, position: In) -> (result: Out) {
        let mid = self.source.value(position);
        let ghost mid0 = mid;
        let result = (self.op)(mid);
        proof {
            assert(self.source.post(position, mid0) && call_ensures(self.op, (mid0,), result));
        }
        result
    }
}

} // verus!
