//! The SSA value abstraction.

use crate::arena::Id;
use crate::basic_block::BasicBlockId;
use crate::instruction::InstructionId;
use crate::types::Type;
use vstd::prelude::*;

verus! {

/// A handle to a value stored in the graph's value arena.
pub type ValueId = Id<Value>;

/// An SSA value: either a parameter of a basic block or the `position`-th
/// result of an instruction.
///
/// The `position` field always equals the value's index in the owning list
/// (block parameter list or instruction result list) at the time the value
/// was created; the graph's operations prove this, they do not assume it.
#[derive(Clone, Copy, Debug, PartialEq, Eq)]
pub enum Value {
    Param { block: BasicBlockId, position: usize, typ: Type },
    Instruction { instruction: InstructionId, position: usize, typ: Type },
}

} // verus!
