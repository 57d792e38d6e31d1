use vstd::prelude::*;

verus! {

/// The error taxonomy of the plan layer.
///
/// Every failure of plan construction, compilation or reference execution is
/// one of these kinds; all of them are recoverable at the boundary, and
/// nothing in this crate panics.
#[derive(Debug, Clone, Copy, PartialEq, Eq, Structural)]
pub enum PlanError {
    /// Wrong operand arity or shape, caught when a plan node is built.
    SchemaMismatch,
    /// An operand's type is unsuited to the operator, such as a non-numeric
    /// input to a numeric function or a key column that a row does not have.
    TypeError,
    /// A partition-cache key was absent when an in-memory scan was compiled.
    KeyNotFound,
    /// An operator that is representable but intentionally not implemented,
    /// such as a range-partitioned fan-out.
    Unsupported,
}

} // verus!
