use ssa_ir::dfg::{DataFlowGraph, ResultTypeError, ValueList};
use ssa_ir::function::Signature;
use ssa_ir::instruction::{BinaryOp, Instruction};
use ssa_ir::types::{NumericType, Type};
use ssa_ir::value::Value;

#[test]
fn make_instruction() {
    let mut dfg = DataFlowGraph::default();
    let ins = Instruction::Immediate { value: 0u128 };
    let ins_id = dfg.make_instruction(ins);

    let num_results = dfg
        .make_instruction_results(ins_id, Type::Numeric(NumericType::NativeField))
        .unwrap();

    let results = dfg.instruction_results(ins_id);

    assert_eq!(results.len(), num_results);
}

#[test]
fn fresh_instruction_has_no_results() {
    let mut dfg = DataFlowGraph::default();
    let ins_id = dfg.make_instruction(Instruction::Immediate { value: 7u128 });
    assert_eq!(dfg.instruction_results(ins_id).len(), 0);
}

#[test]
fn result_count_matches_attached_results() {
    let mut dfg = DataFlowGraph::default();
    let block = dfg.new_block_with_parameters(&[
        Type::Numeric(NumericType::Unsigned { bit_size: 32 }),
        Type::Numeric(NumericType::Unsigned { bit_size: 32 }),
    ]);
    let params = dfg.block_parameters(block).to_vec();
    let ins_id = dfg.make_instruction(Instruction::Binary {
        operator: BinaryOp::Add,
        lhs: params[0],
        rhs: params[1],
    });

    let ctrl = Type::Numeric(NumericType::Unsigned { bit_size: 32 });
    let num_results = dfg.make_instruction_results(ins_id, ctrl).unwrap();

    assert_eq!(num_results, 1);
    assert_eq!(dfg.instruction_results(ins_id).len(), num_results);
}

#[test]
fn recompute_replaces_results_entirely() {
    let mut dfg = DataFlowGraph::default();
    let ins_id = dfg.make_instruction(Instruction::Immediate { value: 3u128 });

    let t1 = Type::Unit;
    let t2 = Type::Numeric(NumericType::Unsigned { bit_size: 64 });

    let first_count = dfg.make_instruction_results(ins_id, t1).unwrap();
    assert_eq!(first_count, 1);
    let first_id = dfg.instruction_results(ins_id)[0];

    let second_count = dfg.make_instruction_results(ins_id, t2).unwrap();
    assert_eq!(second_count, 1);
    let results = dfg.instruction_results(ins_id);

    // The final result list depends on the second control type alone, and
    // the identifiers from the first computation are no longer part of it.
    assert_eq!(results.len(), 1);
    assert!(!results.contains(&first_id));
    match *dfg.value(results[0]) {
        Value::Instruction { position, typ, .. } => {
            assert_eq!(position, 0);
            assert_eq!(typ, t2);
        }
        other => panic!("expected an instruction result, got {:?}", other),
    }
}

#[test]
fn block_parameters_preserve_types_and_order() {
    let int32 = Type::Numeric(NumericType::Signed { bit_size: 32 });
    let mut dfg = DataFlowGraph::default();
    let block = dfg.new_block_with_parameters(&[int32, int32]);

    let params = dfg.block_parameters(block);
    assert_eq!(params.len(), 2);
    for (expected_position, param) in params.iter().enumerate() {
        match *dfg.value(*param) {
            Value::Param { position, typ, .. } => {
                assert_eq!(position, expected_position);
                assert_eq!(typ, int32);
            }
            other => panic!("expected a block parameter, got {:?}", other),
        }
    }
}

#[test]
fn added_parameter_position_equals_prior_count() {
    let field = Type::Numeric(NumericType::NativeField);
    let mut dfg = DataFlowGraph::default();
    let block = dfg.new_block();
    assert_eq!(dfg.block_parameters(block).len(), 0);

    let first = dfg.add_block_parameter(block, field);
    let before_second = dfg.block_parameters(block).to_vec();
    let second = dfg.add_block_parameter(block, field);

    let params = dfg.block_parameters(block);
    assert_eq!(params.len(), 2);
    // Each new parameter lands at the prior count; earlier ones are unmoved.
    assert_eq!(params[0], first);
    assert_eq!(params[1], second);
    assert_eq!(&params[..1], &before_second[..]);
    match *dfg.value(second) {
        Value::Param { position, .. } => assert_eq!(position, 1),
        other => panic!("expected a block parameter, got {:?}", other),
    }
}

#[test]
fn value_ids_are_never_reused() {
    let unit = Type::Unit;
    let mut dfg = DataFlowGraph::default();
    let block = dfg.new_block_with_parameters(&[unit, unit]);
    let ins_id = dfg.make_instruction(Instruction::Immediate { value: 1u128 });
    dfg.make_instruction_results(ins_id, unit).unwrap();

    let mut all_ids = dfg.block_parameters(block).to_vec();
    all_ids.extend_from_slice(dfg.instruction_results(ins_id));
    all_ids.push(dfg.add_block_parameter(block, unit));

    for (m, first) in all_ids.iter().enumerate() {
        for second in &all_ids[m + 1..] {
            assert_ne!(first, second);
        }
    }
}

#[test]
fn immediate_result_takes_the_control_type() {
    let field = Type::Numeric(NumericType::NativeField);
    let mut dfg = DataFlowGraph::default();
    let ins_id = dfg.make_instruction(Instruction::Immediate { value: 0u128 });

    let num_results = dfg.make_instruction_results(ins_id, field).unwrap();

    assert_eq!(num_results, 1);
    let results = dfg.instruction_results(ins_id);
    assert_eq!(results.len(), 1);
    match *dfg.value(results[0]) {
        Value::Instruction { typ, .. } => assert_eq!(typ, field),
        other => panic!("expected an instruction result, got {:?}", other),
    }
}

#[test]
fn call_result_types_are_reported_unsupported() {
    let mut dfg = DataFlowGraph::default();
    let signature = dfg.make_signature(Signature { param_types: vec![], return_types: vec![] });
    let ins_id = dfg.make_instruction(Instruction::Call { function: signature, arguments: vec![] });

    let types = dfg.instruction_result_types(ins_id, Type::Unit);
    assert_eq!(types, Err(ResultTypeError::CallsUnsupported));

    let result = dfg.make_instruction_results(ins_id, Type::Unit);
    assert_eq!(result, Err(ResultTypeError::CallsUnsupported));

    // The failed attempt left the instruction's (empty) result list as it was.
    assert_eq!(dfg.instruction_results(ins_id).len(), 0);
}

#[test]
fn result_types_of_supported_instructions() {
    let u8_type = Type::Numeric(NumericType::Unsigned { bit_size: 8 });
    let mut dfg = DataFlowGraph::default();
    let imm = dfg.make_instruction(Instruction::Immediate { value: 9u128 });
    let types = dfg.instruction_result_types(imm, u8_type).unwrap();
    assert_eq!(types, vec![u8_type]);
}

#[test]
fn num_instructions_counts_all_created() {
    let mut dfg = DataFlowGraph::default();
    assert_eq!(dfg.num_instructions(), 0);
    dfg.make_instruction(Instruction::Immediate { value: 1u128 });
    dfg.make_instruction(Instruction::Immediate { value: 2u128 });
    assert_eq!(dfg.num_instructions(), 2);
}

#[test]
fn make_value_allocates_distinct_handles() {
    let mut dfg = DataFlowGraph::default();
    let block = dfg.new_block();
    let v1 = dfg.make_value(Value::Param { block, position: 0, typ: Type::Unit });
    let v2 = dfg.make_value(Value::Param { block, position: 1, typ: Type::Unit });
    assert_ne!(v1, v2);
    assert_eq!(*dfg.value(v1), Value::Param { block, position: 0, typ: Type::Unit });
}

#[test]
fn value_list_positions_and_clear() {
    let mut dfg = DataFlowGraph::default();
    let block = dfg.new_block();
    let v1 = dfg.make_value(Value::Param { block, position: 0, typ: Type::Unit });
    let v2 = dfg.make_value(Value::Param { block, position: 1, typ: Type::Unit });

    let mut list = ValueList::new();
    assert_eq!(list.len(), 0);
    assert_eq!(list.push(v1), 0);
    assert_eq!(list.push(v2), 1);
    assert_eq!(list.len(), 2);
    assert_eq!(list.as_slice(), &[v1, v2]);
    list.clear();
    assert_eq!(list.len(), 0);
    assert_eq!(list.as_slice(), &[] as &[ssa_ir::value::ValueId]);
}
