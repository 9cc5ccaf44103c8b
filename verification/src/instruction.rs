//! The instruction catalogue and its result-type rule.

use crate::arena::Id;
use crate::function::SignatureId;
use crate::types::Type;
use crate::value::ValueId;
use vstd::prelude::*;

verus! {

/// A handle to an instruction stored in the graph's instruction arena.
pub type InstructionId = Id<Instruction>;

/// The operator of a binary instruction.
#[derive(Clone, Copy, Debug, PartialEq, Eq, Structural)]
pub enum BinaryOp {
    Add,
    Sub,
    Mul,
    Div,
}

/// One operation in a function body: a closed catalogue of kinds with a
/// single dispatch point for result types (`return_types`).
#[derive(Clone, Debug, PartialEq, Eq)]
pub enum Instruction {
    /// An immediate numeric literal, treated as opaque data here.
    Immediate { value: u128 },
    /// A binary arithmetic operation; its result type equals the operand
    /// type, which the caller supplies as the control type variable.
    Binary { operator: BinaryOp, lhs: ValueId, rhs: ValueId },
    /// A call of an externally defined function. Resolving a call's result
    /// types from its signature is deliberately not supported yet, and the
    /// graph reports that distinctly rather than guessing a result arity.
    Call { function: SignatureId, arguments: Vec<ValueId> },
}

impl Instruction {
    /// The ordered result types the instruction produces for a given control
    /// type variable. Meaningful for every kind except calls, which the
    /// graph rejects before asking.
    pub open spec fn spec_return_types(self, ctrl_typevar: Type) -> Seq<Type> {
        match self {
            Instruction::Immediate { .. } => seq![ctrl_typevar],
            Instruction::Binary { .. } => seq![ctrl_typevar],
            Instruction::Call { .. } => Seq::empty(),
        }
    }

    /// Computes the ordered result types of this instruction, resolving
    /// type-polymorphic kinds through `ctrl_typevar`. Never called on a call
    /// instruction: the graph reports those as unsupported first.
    pub fn return_types(&self, ctrl_typevar: Type) -> (types: Vec<Type>)
        requires
            !(self is Call),
        ensures
            types@ == self.spec_return_types(ctrl_typevar),
    {
        match self {
            Instruction::Immediate { .. } => vec![ctrl_typevar],
            Instruction::Binary { .. } => vec![ctrl_typevar],
            Instruction::Call { .. } => vstd::pervasive::unreached(),
        }
    }
}

} // verus!
