//! The errors an operation can report.

use vstd::prelude::*;

verus! {

/// Why an operation produced no result.
#[derive(Clone, Debug, PartialEq, Eq)]
pub enum ExplorerError {
    /// The operation does not apply to the dtype of an operand.
    TypeMismatch,
    /// Two operands differ in length.
    ShapeMismatch,
    /// A configuration name is not one of the known ones; holds the name.
    UnknownOption(String),
    /// An index or another input lies outside its range.
    OutOfRange,
    /// The engine reported an error; holds its message.
    Polars(String),
}

} // verus!
