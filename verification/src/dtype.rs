//! The closed set of element types.

use vstd::prelude::*;

verus! {

/// The runtime type tag of a series.
#[derive(Clone, Copy, Debug, PartialEq, Eq, Structural)]
pub enum Dtype {
    /// `true` or `false`.
    Boolean,
    /// A 64-bit signed integer.
    Int64,
    /// A 64-bit IEEE-754 number.
    Float64,
    /// A string.
    Utf8,
    /// A date: days since the epoch, in 32 bits.
    Date32,
    /// A date and time: milliseconds since the epoch, in 64 bits.
    Date64,
}

/// The name by which the engine prints a dtype.
pub open spec fn dtype_text(dtype: Dtype) -> Seq<char> {
    match dtype {
        Dtype::Boolean => "bool"@,
        Dtype::Int64 => "i64"@,
        Dtype::Float64 => seq!['f', '6', '4'],
        Dtype::Utf8 => "str"@,
        Dtype::Date32 => "date32(days)"@,
        Dtype::Date64 => "date64(ms)"@,
    }
}

impl Dtype {
    /// Dtypes whose cells are stored as integers.
    pub open spec fn is_integral(self) -> bool {
        self == Dtype::Int64 || self == Dtype::Date32 || self == Dtype::Date64
    }
}

} // verus!
