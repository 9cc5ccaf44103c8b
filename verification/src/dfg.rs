//! The dataflow graph: the aggregate that owns every arena and exposes the
//! mutation and query operations used to build one function's IR.
//!
//! Two kinds of failure are kept apart. Caller defects — querying results
//! through a handle this graph never produced, or an append landing at the
//! wrong position — are ruled out by preconditions and proofs, so no
//! operation can corrupt the bookkeeping that later passes rely on.
//! Deliberately unsupported constructs — computing result types for a call
//! instruction — are reported as a distinct error value instead, so that
//! they read as a roadmap gap rather than corrupted data.

use crate::arena::{DenseMap, SecondaryMap};
use crate::basic_block::{BasicBlock, BasicBlockId};
use crate::function::{Signature, SignatureId};
use crate::instruction::{Instruction, InstructionId};
use crate::types::Type;
use crate::value::{Value, ValueId};
use vstd::prelude::*;

verus! {

broadcast use crate::arena::lemma_id_nonnegative;

/// An ordered, append-only list of value handles, used to store instruction
/// result lists; it can also be cleared whole when results are recomputed.
/// The view is the sequence of handles it holds.
#[derive(Debug)]
pub struct ValueList {
    values: Vec<ValueId>,
}

impl View for ValueList {
    type V = Seq<ValueId>;

    closed spec fn view(&self) -> Seq<ValueId> {
        self.values@
    }
}

impl ValueList {
    pub fn new() -> (list: Self)
        ensures
            list@ == Seq::<ValueId>::empty(),
    {
        ValueList { values: Vec::new() }
    }

    /// Inserts an element at the back of the list and returns the position
    /// it was assigned.
    pub fn push(&mut self, value: ValueId) -> (position: usize)
        ensures
            final(self)@ == old(self)@.push(value),
            position == old(self)@.len(),
    {
        self.values.push(value);
        self.len() - 1
    }

    /// Returns the number of values in the list.
    pub fn len(&self) -> (length: usize)
        ensures
            length == self@.len(),
    {
        self.values.len()
    }

    /// Removes all items from the list. Handles that were in it stay valid
    /// entries of the value arena; they are merely no longer reachable from
    /// the owning instruction.
    pub fn clear(&mut self)
        ensures
            final(self)@ == Seq::<ValueId>::empty(),
    {
        self.values.clear();
    }

    /// Returns the value handles as a slice.
    pub fn as_slice(&self) -> (values: &[ValueId])
        ensures
            values@ == self@,
    {
        self.values.as_slice()
    }
}

/// The mathematical model of a dataflow graph: the contents of its five
/// arenas, with each arena as the sequence of its entities in handle order
/// and the result store as a map from instruction index to result list.
#[verifier::ext_equal]
pub struct GraphView {
    pub instructions: Seq<Instruction>,
    pub results: Map<int, Seq<ValueId>>,
    pub values: Seq<Value>,
    pub signatures: Seq<Signature>,
    pub blocks: Seq<Seq<ValueId>>,
}

/// Holds when `value` is recorded as the `position`-th result of the
/// instruction at index `instruction`, carrying type `typ`.
pub open spec fn is_result_value(value: Value, instruction: int, position: int, typ: Type) -> bool {
    &&& value matches Value::Instruction { instruction: owner, position: p, typ: t }
    &&& owner@ == instruction
    &&& p as int == position
    &&& t == typ
}

/// Holds when `value` is recorded as the `position`-th parameter of the
/// block at index `block`, carrying type `typ`.
pub open spec fn is_param_value(value: Value, block: int, position: int, typ: Type) -> bool {
    &&& value matches Value::Param { block: owner, position: p, typ: t }
    &&& owner@ == block
    &&& p as int == position
    &&& t == typ
}

impl GraphView {
    /// Slot `position` of instruction `instruction`'s result list holds a
    /// valid handle, and the value it addresses records exactly this owner
    /// and position.
    pub open spec fn result_slot_wf(self, instruction: int, position: int) -> bool {
        let id = self.results[instruction][position];
        &&& 0 <= id@ < self.values.len()
        &&& self.values[id@] matches Value::Instruction { instruction: owner, position: p, .. }
        &&& owner@ == instruction
        &&& p as int == position
    }

    /// Slot `position` of block `block`'s parameter list holds a valid
    /// handle, and the value it addresses records exactly this owner and
    /// position.
    pub open spec fn param_slot_wf(self, block: int, position: int) -> bool {
        let id = self.blocks[block][position];
        &&& 0 <= id@ < self.values.len()
        &&& self.values[id@] matches Value::Param { block: owner, position: p, .. }
        &&& owner@ == block
        &&& p as int == position
    }

    /// Well-formedness of the graph's bookkeeping: exactly the instructions
    /// created so far have a result list (possibly empty), and every slot of
    /// every result list and block parameter list addresses a value that
    /// records that owner and position. Every operation of the graph
    /// preserves this; identifier uniqueness follows from it.
    pub open spec fn wf(self) -> bool {
        &&& forall|i: int| #[trigger]
            self.results.contains_key(i) <==> 0 <= i < self.instructions.len()
        &&& forall|i: int, k: int|
            self.results.contains_key(i) && 0 <= k < self.results[i].len()
                ==> #[trigger] self.result_slot_wf(i, k)
        &&& forall|b: int, k: int|
            0 <= b < self.blocks.len() && 0 <= k < self.blocks[b].len()
                ==> #[trigger] self.param_slot_wf(b, k)
    }
}

/// Why an instruction's result types could not be computed: the construct is
/// recognized but deliberately not supported yet — a roadmap gap, reported
/// distinctly from the caller defects that the graph's preconditions rule
/// out.
#[derive(Clone, Copy, Debug, PartialEq, Eq, Structural)]
pub enum ResultTypeError {
    /// Result-type resolution for call instructions is not wired to the
    /// signature store yet.
    CallsUnsupported,
}

/// How `make_instruction_results` changes the graph when it succeeds: the
/// instruction's result list is replaced by fresh values — one per computed
/// result type, in order, each recording its position — and everything else
/// is unchanged.
pub open spec fn recompute_post(
    pre: GraphView,
    post: GraphView,
    instruction: int,
    ctrl_typevar: Type,
) -> bool {
    let types = pre.instructions[instruction].spec_return_types(ctrl_typevar);
    &&& post.instructions == pre.instructions
    &&& post.blocks == pre.blocks
    &&& post.signatures == pre.signatures
    &&& post.values.len() == pre.values.len() + types.len()
    &&& forall|j: int| 0 <= j < pre.values.len() ==> post.values[j] == pre.values[j]
    &&& forall|i: int| #[trigger] post.results.contains_key(i) <==> pre.results.contains_key(i)
    &&& forall|i: int|
        i != instruction && pre.results.contains_key(i) ==> #[trigger] post.results[i]
            == pre.results[i]
    &&& post.results[instruction].len() == types.len()
    &&& forall|k: int|
        0 <= k < types.len() ==> (#[trigger] post.results[instruction][k])@ == pre.values.len() + k
    &&& forall|k: int|
        0 <= k < types.len() ==> is_result_value(
            post.values[pre.values.len() + k],
            instruction,
            k,
            types[k],
        )
}

/// The dataflow graph of one function. It exclusively owns five arenas —
/// instructions, per-instruction result lists, values, external-function
/// signatures and basic blocks — and every cross-reference between entities
/// is a typed handle into a sibling arena.
#[derive(Debug)]
pub struct DataFlowGraph {
    /// All of the instructions in the function.
    instructions: DenseMap<Instruction>,
    /// The ordered result values of each instruction; every instruction gets
    /// an entry here — possibly empty, never missing — the moment it is
    /// created.
    results: SecondaryMap<Instruction, ValueList>,
    /// Storage for all of the values defined in the function.
    values: DenseMap<Value>,
    /// Signatures of external methods, stored but not yet consumed by
    /// result-type resolution.
    signatures: DenseMap<Signature>,
    /// All of the basic blocks in the function.
    blocks: DenseMap<BasicBlock>,
}

impl View for DataFlowGraph {
    type V = GraphView;

    closed spec fn view(&self) -> GraphView {
        GraphView {
            instructions: self.instructions@,
            results: Map::new(
                |i: int| self.results@.contains_key(i),
                |i: int| self.results@[i]@,
            ),
            values: self.values@,
            signatures: self.signatures@,
            blocks: Seq::new(self.blocks@.len(), |b: int| self.blocks@[b]@),
        }
    }
}

impl Default for DataFlowGraph {
    /// An empty graph: no instructions, values, signatures or blocks.
    fn default() -> (graph: Self)
        ensures
            graph.wf(),
            graph@.instructions == Seq::<Instruction>::empty(),
            graph@.results == Map::<int, Seq<ValueId>>::empty(),
            graph@.values == Seq::<Value>::empty(),
            graph@.signatures == Seq::<Signature>::empty(),
            graph@.blocks == Seq::<Seq<ValueId>>::empty(),
    {
        let graph = DataFlowGraph {
            instructions: DenseMap::new(),
            results: SecondaryMap::new(),
            values: DenseMap::new(),
            signatures: DenseMap::new(),
            blocks: DenseMap::new(),
        };
        proof {
            assert(graph@.results =~= Map::<int, Seq<ValueId>>::empty());
            assert(graph@.blocks =~= Seq::<Seq<ValueId>>::empty());
        }
        graph
    }
}

impl DataFlowGraph {
    /// Well-formedness of the graph's bookkeeping; constructors establish it
    /// and every operation preserves it.
    pub open spec fn wf(self) -> bool {
        self@.wf()
    }

    /// Creates a new basic block with no parameters. After being created,
    /// the block is unreachable in the current function until another block
    /// is made to jump to it.
    pub fn new_block(&mut self) -> (block_id: BasicBlockId)
        requires
            old(self).wf(),
        ensures
            final(self).wf(),
            block_id@ == old(self)@.blocks.len(),
            final(self)@.blocks == old(self)@.blocks.push(Seq::<ValueId>::empty()),
            final(self)@.instructions == old(self)@.instructions,
            final(self)@.results == old(self)@.results,
            final(self)@.values == old(self)@.values,
            final(self)@.signatures == old(self)@.signatures,
    {
        let block_id = self.blocks.insert(BasicBlock::new(Vec::new()));
        proof {
            assert(self@.blocks =~= old(self)@.blocks.push(Seq::<ValueId>::empty()));
            assert(self@.results =~= old(self)@.results);
            assert forall|b: int, k: int|
                0 <= b < self@.blocks.len() && 0 <= k < self@.blocks[b].len()
                    implies #[trigger] self@.param_slot_wf(b, k) by {
                assert(old(self)@.param_slot_wf(b, k));
            }
            assert forall|i: int, k: int|
                self@.results.contains_key(i) && 0 <= k < self@.results[i].len()
                    implies #[trigger] self@.result_slot_wf(i, k) by {
                assert(old(self)@.result_slot_wf(i, k));
            }
        }
        block_id
    }

    /// Read accessor for a block's parameter values, in declaration order.
    pub fn block_parameters(&self, block_id: BasicBlockId) -> (parameters: &[ValueId])
        requires
            block_id@ < self@.blocks.len(),
        ensures
            parameters@ == self@.blocks[block_id@],
    {
        self.blocks.get(block_id).parameters()
    }

    /// Inserts a new instruction into the graph and, in the same operation,
    /// allocates its result list: empty until `make_instruction_results` or
    /// `append_result` attaches results, and never missing.
    pub fn make_instruction(&mut self, instruction_data: Instruction) -> (instruction_id:
        InstructionId)
        requires
            old(self).wf(),
        ensures
            final(self).wf(),
            instruction_id@ == old(self)@.instructions.len(),
            final(self)@.instructions == old(self)@.instructions.push(instruction_data),
            final(self)@.results == old(self)@.results.insert(
                instruction_id@,
                Seq::<ValueId>::empty(),
            ),
            final(self)@.values == old(self)@.values,
            final(self)@.blocks == old(self)@.blocks,
            final(self)@.signatures == old(self)@.signatures,
    {
        let instruction_id = self.instructions.insert(instruction_data);
        self.results.insert(instruction_id, ValueList::new());
        proof {
            assert(self@.blocks =~= old(self)@.blocks);
            assert(self@.results =~= old(self)@.results.insert(
                instruction_id@,
                Seq::<ValueId>::empty(),
            ));
            assert forall|b: int, k: int|
                0 <= b < self@.blocks.len() && 0 <= k < self@.blocks[b].len()
                    implies #[trigger] self@.param_slot_wf(b, k) by {
                assert(old(self)@.param_slot_wf(b, k));
            }
            assert forall|i: int, k: int|
                self@.results.contains_key(i) && 0 <= k < self@.results[i].len()
                    implies #[trigger] self@.result_slot_wf(i, k) by {
                if i != instruction_id@ {
                    assert(old(self)@.result_slot_wf(i, k));
                }
            }
        }
        instruction_id
    }

    /// Raw allocation of one standalone value. The caller supplies the
    /// value's claimed owner and position; nothing ties it to a list until a
    /// list operation appends it.
    pub fn make_value(&mut self, value: Value) -> (value_id: ValueId)
        requires
            old(self).wf(),
        ensures
            final(self).wf(),
            value_id@ == old(self)@.values.len(),
            final(self)@.values == old(self)@.values.push(value),
            final(self)@.instructions == old(self)@.instructions,
            final(self)@.results == old(self)@.results,
            final(self)@.blocks == old(self)@.blocks,
            final(self)@.signatures == old(self)@.signatures,
    {
        let value_id = self.values.insert(value);
        proof {
            assert(self@.blocks =~= old(self)@.blocks);
            assert(self@.results =~= old(self)@.results);
            assert forall|b: int, k: int|
                0 <= b < self@.blocks.len() && 0 <= k < self@.blocks[b].len()
                    implies #[trigger] self@.param_slot_wf(b, k) by {
                assert(old(self)@.param_slot_wf(b, k));
            }
            assert forall|i: int, k: int|
                self@.results.contains_key(i) && 0 <= k < self@.results[i].len()
                    implies #[trigger] self@.result_slot_wf(i, k) by {
                assert(old(self)@.result_slot_wf(i, k));
            }
        }
        value_id
    }

    /// The number of instructions ever created in this graph.
    pub fn num_instructions(&self) -> (count: usize)
        ensures
            count == self@.instructions.len(),
    {
        self.instructions.len()
    }

    /// Returns all of the result values attached to an instruction. The
    /// handle must have been produced by `make_instruction` on this graph;
    /// every such instruction has a result list, possibly empty.
    pub fn instruction_results(&self, instruction_id: InstructionId) -> (results: &[ValueId])
        requires
            self.wf(),
            instruction_id@ < self@.instructions.len(),
        ensures
            results@ == self@.results[instruction_id@],
    {
        proof {
            assert(self@.results.contains_key(instruction_id@));
        }
        match self.results.get(instruction_id) {
            Some(list) => list.as_slice(),
            None => vstd::pervasive::unreached(),
        }
    }

    /// Returns the result types of an instruction, resolving
    /// type-polymorphic kinds through `ctrl_typevar`. For a call instruction
    /// it reports the deliberate, explicitly unsupported gap instead of
    /// guessing a result arity.
    pub fn instruction_result_types(
        &self,
        instruction_id: InstructionId,
        ctrl_typevar: Type,
    ) -> (result: Result<Vec<Type>, ResultTypeError>)
        requires
            instruction_id@ < self@.instructions.len(),
        ensures
            ({
                let data = self@.instructions[instruction_id@];
                match result {
                    Ok(types) => !(data is Call) && types@ == data.spec_return_types(ctrl_typevar),
                    Err(error) => data is Call && error == ResultTypeError::CallsUnsupported,
                }
            }),
    {
        let ins_data = self.instructions.get(instruction_id);
        match ins_data {
            Instruction::Call { .. } => Err(ResultTypeError::CallsUnsupported),
            Instruction::Immediate { .. } => Ok(ins_data.return_types(ctrl_typevar)),
            Instruction::Binary { .. } => Ok(ins_data.return_types(ctrl_typevar)),
        }
    }

    /// Creates one new result value for an instruction and appends it to the
    /// instruction's result list. The value's recorded position equals the
    /// list's length before the append: the bookkeeping that downstream
    /// passes rely on is proved here, not merely checked.
    pub fn append_result(&mut self, instruction_id: InstructionId, typ: Type) -> (value_id:
        ValueId)
        requires
            old(self).wf(),
            instruction_id@ < old(self)@.instructions.len(),
        ensures
            final(self).wf(),
            value_id@ == old(self)@.values.len(),
            final(self)@.values.len() == old(self)@.values.len() + 1,
            forall|j: int|
                0 <= j < old(self)@.values.len() ==> final(self)@.values[j] == old(self)@.values[j],
            is_result_value(
                final(self)@.values[value_id@],
                instruction_id@,
                old(self)@.results[instruction_id@].len() as int,
                typ,
            ),
            final(self)@.results == old(self)@.results.insert(
                instruction_id@,
                old(self)@.results[instruction_id@].push(value_id),
            ),
            final(self)@.instructions == old(self)@.instructions,
            final(self)@.blocks == old(self)@.blocks,
            final(self)@.signatures == old(self)@.signatures,
    {
        proof {
            assert(self@.results.contains_key(instruction_id@));
        }
        let mut results_list = self.results.take(instruction_id).unwrap();
        let expected_res_position = results_list.len();
        let value_id = self.values.insert(
            Value::Instruction { typ, position: expected_res_position, instruction: instruction_id },
        );
        // The freshly created value must land at the position it records.
        let actual_res_position = results_list.push(value_id);
        assert(actual_res_position == expected_res_position);
        self.results.insert(instruction_id, results_list);
        proof {
            assert(self@.blocks =~= old(self)@.blocks);
            assert(self@.results =~= old(self)@.results.insert(
                instruction_id@,
                old(self)@.results[instruction_id@].push(value_id),
            ));
            assert forall|b: int, k: int|
                0 <= b < self@.blocks.len() && 0 <= k < self@.blocks[b].len()
                    implies #[trigger] self@.param_slot_wf(b, k) by {
                assert(old(self)@.param_slot_wf(b, k));
            }
            assert forall|i: int, k: int|
                self@.results.contains_key(i) && 0 <= k < self@.results[i].len()
                    implies #[trigger] self@.result_slot_wf(i, k) by {
                if i == instruction_id@ && k == old(self)@.results[instruction_id@].len() {
                    assert(self@.results[i][k] == value_id);
                } else {
                    assert(old(self)@.result_slot_wf(i, k));
                }
            }
        }
        value_id
    }

    /// Attaches results to the instruction: clears whatever results were
    /// attached before, computes the instruction's result types under
    /// `ctrl_typevar`, and creates one fresh result value per computed type,
    /// in order. Returns the number of results created. Repeating the call
    /// replaces the result identifiers entirely, so callers must not hold on
    /// to old result handles across a second call. On the unsupported call
    /// case the graph is left unchanged.
    pub fn make_instruction_results(
        &mut self,
        instruction_id: InstructionId,
        ctrl_typevar: Type,
    ) -> (result: Result<usize, ResultTypeError>)
        requires
            old(self).wf(),
            instruction_id@ < old(self)@.instructions.len(),
        ensures
            final(self).wf(),
            ({
                let data = old(self)@.instructions[instruction_id@];
                match result {
                    Ok(count) => {
                        &&& !(data is Call)
                        &&& count == data.spec_return_types(ctrl_typevar).len()
                        &&& recompute_post(old(self)@, final(self)@, instruction_id@, ctrl_typevar)
                    },
                    Err(error) => {
                        &&& data is Call
                        &&& error == ResultTypeError::CallsUnsupported
                        &&& final(self)@ == old(self)@
                    },
                }
            }),
    {
        // Reject the unsupported construct before touching any state.
        let types = match self.instruction_result_types(instruction_id, ctrl_typevar) {
            Ok(types) => types,
            Err(error) => {
                return Err(error);
            },
        };

        // Clear all of the results associated with this instruction, then
        // append one fresh value per computed type.
        self.results.insert(instruction_id, ValueList::new());
        proof {
            assert(self@.blocks =~= old(self)@.blocks);
            assert forall|b: int, k: int|
                0 <= b < self@.blocks.len() && 0 <= k < self@.blocks[b].len()
                    implies #[trigger] self@.param_slot_wf(b, k) by {
                assert(old(self)@.param_slot_wf(b, k));
            }
            assert forall|i: int, k: int|
                self@.results.contains_key(i) && 0 <= k < self@.results[i].len()
                    implies #[trigger] self@.result_slot_wf(i, k) by {
                assert(i != instruction_id@);
                assert(old(self)@.results.contains_key(i));
                assert(self@.results[i] == old(self)@.results[i]);
                assert(old(self)@.result_slot_wf(i, k));
            }
            assert(forall|i: int| #[trigger]
                self@.results.contains_key(i) <==> old(self)@.results.contains_key(i));
        }

        let num_types = types.len();
        let mut index: usize = 0;
        while index < num_types
            invariant
                self.wf(),
                index <= num_types,
                num_types == types@.len(),
                instruction_id@ < old(self)@.instructions.len(),
                types@ == old(self)@.instructions[instruction_id@].spec_return_types(ctrl_typevar),
                self@.instructions == old(self)@.instructions,
                self@.blocks == old(self)@.blocks,
                self@.signatures == old(self)@.signatures,
                forall|i: int| #[trigger]
                    self@.results.contains_key(i) <==> old(self)@.results.contains_key(i),
                forall|i: int|
                    i != instruction_id@ && old(self)@.results.contains_key(i)
                        ==> #[trigger] self@.results[i] == old(self)@.results[i],
                self@.values.len() == old(self)@.values.len() + index,
                forall|j: int|
                    0 <= j < old(self)@.values.len() ==> self@.values[j] == old(self)@.values[j],
                self@.results[instruction_id@].len() == index,
                forall|k: int|
                    0 <= k < index ==> (#[trigger] self@.results[instruction_id@][k])@ == old(
                        self,
                    )@.values.len() + k,
                forall|k: int|
                    0 <= k < index ==> is_result_value(
                        self@.values[old(self)@.values.len() + k],
                        instruction_id@,
                        k,
                        types@[k],
                    ),
            decreases num_types - index,
        {
            self.append_result(instruction_id, types[index]);
            index += 1;
        }
        Ok(num_types)
    }

    /// Appends one new parameter value to an existing block, mutating the
    /// block in place. The new parameter's recorded position equals the
    /// block's parameter count before the call; parameters are append-only,
    /// so the prior parameters and their order are unchanged.
    pub fn add_block_parameter(&mut self, block_id: BasicBlockId, typ: Type) -> (parameter:
        ValueId)
        requires
            old(self).wf(),
            block_id@ < old(self)@.blocks.len(),
        ensures
            final(self).wf(),
            parameter@ == old(self)@.values.len(),
            final(self)@.values.len() == old(self)@.values.len() + 1,
            forall|j: int|
                0 <= j < old(self)@.values.len() ==> final(self)@.values[j] == old(self)@.values[j],
            is_param_value(
                final(self)@.values[parameter@],
                block_id@,
                old(self)@.blocks[block_id@].len() as int,
                typ,
            ),
            final(self)@.blocks == old(self)@.blocks.update(
                block_id@,
                old(self)@.blocks[block_id@].push(parameter),
            ),
            final(self)@.instructions == old(self)@.instructions,
            final(self)@.results == old(self)@.results,
            final(self)@.signatures == old(self)@.signatures,
    {
        let position = self.blocks.get(block_id).num_parameters();
        let parameter = self.values.insert(Value::Param { block: block_id, position, typ });
        let mut block = self.blocks.replace(block_id, BasicBlock::new(Vec::new()));
        block.add_parameter(parameter);
        let _ = self.blocks.replace(block_id, block);
        proof {
            assert(self@.results =~= old(self)@.results);
            assert(self@.blocks =~= old(self)@.blocks.update(
                block_id@,
                old(self)@.blocks[block_id@].push(parameter),
            ));
            assert forall|i: int, k: int|
                self@.results.contains_key(i) && 0 <= k < self@.results[i].len()
                    implies #[trigger] self@.result_slot_wf(i, k) by {
                assert(old(self)@.result_slot_wf(i, k));
            }
            assert forall|b: int, k: int|
                0 <= b < self@.blocks.len() && 0 <= k < self@.blocks[b].len()
                    implies #[trigger] self@.param_slot_wf(b, k) by {
                if b == block_id@ && k == old(self)@.blocks[block_id@].len() {
                    assert(self@.blocks[b][k] == parameter);
                } else {
                    assert(old(self)@.param_slot_wf(b, k));
                }
            }
        }
        parameter
    }

    /// Creates a new basic block and, atomically with the allocation, one
    /// parameter value per entry of `parameter_types`, in input order, each
    /// recording its index as its position. After being created, the block
    /// is unreachable in the current function until another block is made to
    /// jump to it.
    pub fn new_block_with_parameters(&mut self, parameter_types: &[Type]) -> (block_id:
        BasicBlockId)
        requires
            old(self).wf(),
        ensures
            final(self).wf(),
            block_id@ == old(self)@.blocks.len(),
            final(self)@.blocks.len() == old(self)@.blocks.len() + 1,
            forall|b: int|
                0 <= b < old(self)@.blocks.len() ==> final(self)@.blocks[b] == old(self)@.blocks[b],
            final(self)@.blocks[block_id@].len() == parameter_types@.len(),
            forall|k: int|
                0 <= k < parameter_types@.len() ==> (#[trigger] final(self)@.blocks[block_id@][k])@
                    == old(self)@.values.len() + k,
            final(self)@.values.len() == old(self)@.values.len() + parameter_types@.len(),
            forall|j: int|
                0 <= j < old(self)@.values.len() ==> final(self)@.values[j] == old(self)@.values[j],
            forall|k: int|
                0 <= k < parameter_types@.len() ==> is_param_value(
                    final(self)@.values[old(self)@.values.len() + k],
                    block_id@,
                    k,
                    parameter_types@[k],
                ),
            final(self)@.instructions == old(self)@.instructions,
            final(self)@.results == old(self)@.results,
            final(self)@.signatures == old(self)@.signatures,
    {
        let entry_block = self.blocks.next_id();
        let num_types = parameter_types.len();
        let mut parameters: Vec<ValueId> = Vec::new();
        let mut index: usize = 0;
        while index < num_types
            invariant
                index <= num_types,
                num_types == parameter_types@.len(),
                entry_block@ == old(self)@.blocks.len(),
                self.instructions == old(self).instructions,
                self.results == old(self).results,
                self.signatures == old(self).signatures,
                self.blocks == old(self).blocks,
                old(self).wf(),
                self@.values.len() == old(self)@.values.len() + index,
                forall|j: int|
                    0 <= j < old(self)@.values.len() ==> self@.values[j] == old(self)@.values[j],
                parameters@.len() == index,
                forall|k: int|
                    0 <= k < index ==> (#[trigger] parameters@[k])@ == old(self)@.values.len() + k,
                forall|k: int|
                    0 <= k < index ==> is_param_value(
                        self@.values[old(self)@.values.len() + k],
                        entry_block@,
                        k,
                        parameter_types@[k],
                    ),
            decreases num_types - index,
        {
            let typ = parameter_types[index];
            let parameter = self.values.insert(
                Value::Param { block: entry_block, position: index, typ },
            );
            parameters.push(parameter);
            index += 1;
        }
        let ghost parameters_view = parameters@;
        let block_id = self.blocks.insert(BasicBlock::new(parameters));
        proof {
            assert(self@.results =~= old(self)@.results);
            assert(self@.blocks =~= Seq::new(
                old(self)@.blocks.len(),
                |b: int| old(self)@.blocks[b],
            ).push(parameters_view));
            assert(self@.blocks[block_id@] == parameters_view);
            assert forall|i: int, k: int|
                self@.results.contains_key(i) && 0 <= k < self@.results[i].len()
                    implies #[trigger] self@.result_slot_wf(i, k) by {
                assert(old(self)@.result_slot_wf(i, k));
            }
            assert forall|b: int, k: int|
                0 <= b < self@.blocks.len() && 0 <= k < self@.blocks[b].len()
                    implies #[trigger] self@.param_slot_wf(b, k) by {
                if b < old(self)@.blocks.len() {
                    assert(self@.blocks[b] == old(self)@.blocks[b]);
                    assert(old(self)@.param_slot_wf(b, k));
                } else {
                    assert(self@.blocks[b][k] == parameters_view[k]);
                    assert(is_param_value(
                        self@.values[old(self)@.values.len() + k],
                        entry_block@,
                        k,
                        parameter_types@[k],
                    ));
                }
            }
        }
        block_id
    }

    /// Stores the signature of an external method; call instructions carry
    /// the returned handle. Signatures are not yet consumed by result-type
    /// resolution.
    pub fn make_signature(&mut self, signature: Signature) -> (signature_id: SignatureId)
        requires
            old(self).wf(),
        ensures
            final(self).wf(),
            signature_id@ == old(self)@.signatures.len(),
            final(self)@.signatures == old(self)@.signatures.push(signature),
            final(self)@.instructions == old(self)@.instructions,
            final(self)@.results == old(self)@.results,
            final(self)@.values == old(self)@.values,
            final(self)@.blocks == old(self)@.blocks,
    {
        let signature_id = self.signatures.insert(signature);
        proof {
            assert(self@.results =~= old(self)@.results);
            assert(self@.blocks =~= old(self)@.blocks);
            assert forall|b: int, k: int|
                0 <= b < self@.blocks.len() && 0 <= k < self@.blocks[b].len()
                    implies #[trigger] self@.param_slot_wf(b, k) by {
                assert(old(self)@.param_slot_wf(b, k));
            }
            assert forall|i: int, k: int|
                self@.results.contains_key(i) && 0 <= k < self@.results[i].len()
                    implies #[trigger] self@.result_slot_wf(i, k) by {
                assert(old(self)@.result_slot_wf(i, k));
            }
        }
        signature_id
    }

    /// Read accessor for the value a handle refers to.
    pub fn value(&self, value_id: ValueId) -> (value: &Value)
        requires
            value_id@ < self@.values.len(),
        ensures
            *value == self@.values[value_id@],
    {
        self.values.get(value_id)
    }
}

/// Value identifiers are never reused: in a well-formed graph, two distinct
/// slots of instruction result lists hold distinct value identifiers, even
/// across different instructions.
pub proof fn lemma_result_ids_distinct(
    graph: GraphView,
    i1: int,
    k1: int,
    i2: int,
    k2: int,
)
    requires
        graph.wf(),
        graph.results.contains_key(i1),
        0 <= k1 < graph.results[i1].len(),
        graph.results.contains_key(i2),
        0 <= k2 < graph.results[i2].len(),
        (i1, k1) != (i2, k2),
    ensures
        graph.results[i1][k1] != graph.results[i2][k2],
{
    assert(graph.result_slot_wf(i1, k1));
    assert(graph.result_slot_wf(i2, k2));
}

/// Value identifiers are never reused: in a well-formed graph, two distinct
/// parameter slots hold distinct value identifiers, even across different
/// blocks.
pub proof fn lemma_param_ids_distinct(
    graph: GraphView,
    b1: int,
    k1: int,
    b2: int,
    k2: int,
)
    requires
        graph.wf(),
        0 <= b1 < graph.blocks.len(),
        0 <= k1 < graph.blocks[b1].len(),
        0 <= b2 < graph.blocks.len(),
        0 <= k2 < graph.blocks[b2].len(),
        (b1, k1) != (b2, k2),
    ensures
        graph.blocks[b1][k1] != graph.blocks[b2][k2],
{
    assert(graph.param_slot_wf(b1, k1));
    assert(graph.param_slot_wf(b2, k2));
}

/// Value identifiers are never reused: in a well-formed graph, a block
/// parameter and an instruction result never share an identifier.
pub proof fn lemma_param_id_differs_from_result_id(
    graph: GraphView,
    block: int,
    param_position: int,
    instruction: int,
    result_position: int,
)
    requires
        graph.wf(),
        0 <= block < graph.blocks.len(),
        0 <= param_position < graph.blocks[block].len(),
        graph.results.contains_key(instruction),
        0 <= result_position < graph.results[instruction].len(),
    ensures
        graph.blocks[block][param_position] != graph.results[instruction][result_position],
{
    assert(graph.param_slot_wf(block, param_position));
    assert(graph.result_slot_wf(instruction, result_position));
}

/// Recomputing an instruction's results a second time supersedes the first
/// computation entirely: the final result list's length and value types are
/// determined by the second control type alone, regardless of the first, and
/// no identifier that the first computation attached remains in the list.
pub proof fn lemma_recompute_supersedes(
    g0: GraphView,
    g1: GraphView,
    g2: GraphView,
    instruction: int,
    t1: Type,
    t2: Type,
)
    requires
        g0.wf(),
        0 <= instruction < g0.instructions.len(),
        recompute_post(g0, g1, instruction, t1),
        recompute_post(g1, g2, instruction, t2),
    ensures
        g2.results[instruction].len() == g0.instructions[instruction].spec_return_types(t2).len(),
        forall|k: int|
            0 <= k < g2.results[instruction].len() ==> is_result_value(
                g2.values[(#[trigger] g2.results[instruction][k])@],
                instruction,
                k,
                g0.instructions[instruction].spec_return_types(t2)[k],
            ),
        forall|k: int|
            0 <= k < g1.results[instruction].len() ==> !g2.results[instruction].contains(
                #[trigger] g1.results[instruction][k],
            ),
{
    let types2 = g0.instructions[instruction].spec_return_types(t2);
    assert(g1.instructions == g0.instructions);
    assert forall|k: int| 0 <= k < g2.results[instruction].len() implies is_result_value(
        g2.values[(g2.results[instruction][k])@],
        instruction,
        k,
        types2[k],
    ) by {
        assert((g2.results[instruction][k])@ == g1.values.len() + k);
    }
    assert forall|k: int|
        0 <= k < g1.results[instruction].len() implies !g2.results[instruction].contains(
        g1.results[instruction][k],
    ) by {
        let stale = g1.results[instruction][k];
        assert(stale@ == g0.values.len() + k);
        assert(stale@ < g1.values.len());
        assert forall|j: int|
            0 <= j < g2.results[instruction].len() implies g2.results[instruction][j] != stale by {
            assert((g2.results[instruction][j])@ == g1.values.len() + j);
        }
    }
}

} // verus!
