//! Core of a static-single-assignment (SSA) intermediate representation:
//! a mutable dataflow graph holding the basic blocks, instructions and
//! values of one function, built incrementally and read by later passes.

pub mod arena;
pub mod basic_block;
pub mod dfg;
pub mod function;
pub mod instruction;
pub mod types;
pub mod value;
