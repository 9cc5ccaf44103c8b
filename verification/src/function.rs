//! External-function signatures.

use crate::arena::Id;
use crate::types::Type;
use vstd::prelude::*;

verus! {

/// A handle to a signature stored in the graph's signature arena.
pub type SignatureId = Id<Signature>;

/// The type descriptor of an externally defined function. Signatures are
/// stored in the graph but not yet consumed by result-type resolution:
/// call-instruction result typing is a deliberate, explicit gap.
#[derive(Clone, Debug, PartialEq, Eq)]
pub struct Signature {
    pub param_types: Vec<Type>,
    pub return_types: Vec<Type>,
}

} // verus!
