//! Basic blocks: straight-line code regions with entry parameters.

use crate::arena::Id;
use crate::value::ValueId;
use vstd::prelude::*;

verus! {

/// A handle to a basic block stored in the graph's block arena.
pub type BasicBlockId = Id<BasicBlock>;

/// A basic block holds the ordered list of its parameter values. A newly
/// created block is unreachable until an instruction elsewhere transfers
/// control to it. The view is the sequence of parameter value handles.
#[derive(Debug)]
pub struct BasicBlock {
    parameters: Vec<ValueId>,
}

impl View for BasicBlock {
    type V = Seq<ValueId>;

    closed spec fn view(&self) -> Seq<ValueId> {
        self.parameters@
    }
}

impl BasicBlock {
    pub fn new(parameters: Vec<ValueId>) -> (block: Self)
        ensures
            block@ == parameters@,
    {
        BasicBlock { parameters }
    }

    /// Read accessor for the block's parameter values, in declaration order.
    pub fn parameters(&self) -> (parameters: &[ValueId])
        ensures
            parameters@ == self@,
    {
        self.parameters.as_slice()
    }

    /// The number of parameters the block declares.
    pub fn num_parameters(&self) -> (count: usize)
        ensures
            count == self@.len(),
    {
        self.parameters.len()
    }

    /// Appends one parameter value to the block; parameters only grow.
    pub fn add_parameter(&mut self, parameter: ValueId)
        ensures
            final(self)@ == old(self)@.push(parameter),
    {
        self.parameters.push(parameter);
    }
}

} // verus!
