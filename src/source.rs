use vstd::prelude::*;

use crate::event::LogicalEvent;

verus! {

/// The batch that one sampling cycle sends: the input events read in the
/// cycle's time slice, in arrival order, or a single tick when the slice saw
/// no input.
pub open spec fn cycle_batch_of<P>(inputs: Seq<P>) -> Seq<LogicalEvent<P>> {
    if inputs.len() == 0 {
        seq![LogicalEvent::Tick]
    } else {
        inputs.map_values(|p: P| LogicalEvent::InputEvent(p))
    }
}

/// Forms the batch of one sampling cycle from the input events read in it.
/// The batch is never empty, so every batch leads to a render pass.
pub fn cycle_batch<P>(inputs: Vec<P>) -> (b: Vec<LogicalEvent<P>>)
    ensures
        b@ == cycle_batch_of(inputs@),
        b@.len() >= 1,
{
    let ghost ins = inputs@;
    if inputs.len() == 0 {
        return vec![LogicalEvent::Tick];
    }
    let mut b: Vec<LogicalEvent<P>> = Vec::new();
    for p in it: inputs.into_iter()
        invariant
            it.seq() == ins,
            b@ == ins.take(it.index()).map_values(|p: P| LogicalEvent::InputEvent(p)),
    {
        b.push(LogicalEvent::InputEvent(p));
        proof {
            assert(ins.take(it.index() + 1).drop_last() == ins.take(it.index() as int));
        }
    }
    proof {
        assert(ins.take(ins.len() as int) == ins);
    }
    b
}

} // verus!
