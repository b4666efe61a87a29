//! Single values: the mathematical cell and the value handed to callers.

use vstd::prelude::*;

verus! {

/// One position of a series, as contracts see it.
///
/// A float is kept as its IEEE-754 bit pattern; a date is kept as the integer
/// that counts days or milliseconds since the epoch.
pub enum Cell {
    /// The position is null.
    Null,
    /// A boolean.
    Bool(bool),
    /// An integer, a date or a date and time.
    Int(int),
    /// The 64 bits of a float.
    Float(u64),
    /// A string.
    Str(Seq<char>),
}

/// A single value read from a series or computed by a reduction.
#[derive(Clone, Debug, PartialEq, Eq)]
pub enum Scalar {
    /// No value.
    Null,
    /// A boolean.
    Boolean(bool),
    /// An integer; dates are given by their count since the epoch.
    Integer(i64),
    /// A float, given by its IEEE-754 bit pattern.
    Float(u64),
    /// A string.
    Utf8(String),
}

impl View for Scalar {
    type V = Cell;

    open spec fn view(&self) -> Cell {
        match self {
            Scalar::Null => Cell::Null,
            Scalar::Boolean(b) => Cell::Bool(*b),
            Scalar::Integer(i) => Cell::Int(*i as int),
            Scalar::Float(bits) => Cell::Float(*bits),
            Scalar::Utf8(s) => Cell::Str(s@),
        }
    }
}

} // verus!
