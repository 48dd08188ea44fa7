//! Applies an operation on the position parameter before the position is
//! passed to the source noise.

use std::marker::PhantomData;

use vstd::prelude::*;

use crate::noise::Noise;

verus! {

/// Applies an operation on the position parameter before the position is
/// passed to the source noise.
///
/// `value(p)` is `source.value(op(p))`: the wrapped generator evaluated at
/// the remapped position.
pub struct InputOp<Src, Op, OpOut> {
    /// The wrapped source generator.
    pub source: Src,

    /// The mapping applied to every position before the lookup.
    pub op: Op,

    /// Marks the mapping's output type, which only the source consumes.
    pub mapped: PhantomData<OpOut>,
}

impl<Src, Op, OpOut> InputOp<Src, Op, OpOut> {
    /// Wraps `source`, remapping each position through `op` first.
    pub fn new(source: Src, op: Op) -> (r: InputOp<Src, Op, OpOut>)
        ensures
            r.source == source,
            r.op == op,
    {
        InputOp { source, op, mapped: PhantomData }
    }
}

impl<In, OpOut, Out, Src: Noise<OpOut, Out>, Op: Fn(In) -> OpOut> Noise<In, Out> for InputOp<
    Src,
    Op,
    OpOut,
> {
    open spec fn pre(&self, position: In) -> bool {
        &&& call_requires(self.op, (position,))
        &&& forall|q: OpOut| #[trigger]
            call_ensures(self.op, (position,), q) ==> self.source.pre(q)
    }

    open spec fn post(&self, position: In, result: Out) -> bool {
        exists|q: OpOut| #[trigger]
            call_ensures(self.op, (position,), q) && self.source.post(q, result)
    }

    fn value(&self, position: In) -> (result: Out) {
        let q = (self.op)(position);
        let ghost q0 = q;
        let result = self.source.value(q);
        proof {
            assert(call_ensures(self.op, (position,), q0) && self.source.post(q0, result));
        }
        result
    }
}

} // verus!
