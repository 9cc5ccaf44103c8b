//! The type representation used to tag values and instruction results.

use vstd::prelude::*;

verus! {

/// The numeric subcase of the type representation.
#[derive(Clone, Copy, Debug, PartialEq, Eq, Structural)]
pub enum NumericType {
    Signed { bit_size: u32 },
    Unsigned { bit_size: u32 },
    NativeField,
}

/// The type tag attached to every value and instruction result.
#[derive(Clone, Copy, Debug, PartialEq, Eq, Structural)]
pub enum Type {
    Numeric(NumericType),
    Unit,
}

} // verus!
