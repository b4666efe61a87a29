//! Conversion of a series to another dtype.

use vstd::prelude::*;
use crate::dtype::Dtype;
use crate::engine::{error_message, series_cells, series_dtype_of};
use crate::error::ExplorerError;
use crate::model::{cast_cells, castable, cells_fit, SeriesView};
use crate::scalar::Cell;
use crate::series::{cast_column, fails, fails_unknown, gives, ExSeries};

verus! {

/// Whether two strings hold the same text.
pub(crate) fn same_text(a: &str, b: &str) -> (r: bool)
    ensures
        r == (a@ == b@),
{
    a.to_owned() == b.to_owned()
}

/// The dtype that a cast target names.
pub open spec fn cast_target_of(name: Seq<char>) -> Option<Dtype> {
    if name == "float"@ {
        Some(Dtype::Float64)
    } else if name == "integer"@ {
        Some(Dtype::Int64)
    } else if name == "date"@ {
        Some(Dtype::Date32)
    } else if name == "datetime"@ {
        Some(Dtype::Date64)
    } else if name == "boolean"@ {
        Some(Dtype::Boolean)
    } else if name == "string"@ {
        Some(Dtype::Utf8)
    } else {
        None
    }
}

/// The dtype that a cast target names: `float`, `integer`, `date`,
/// `datetime`, `boolean` or `string`; `None` for any other name.
pub fn cast_target(to_type: &str) -> (r: Option<Dtype>)
    ensures
        r == cast_target_of(to_type@),
{
    if same_text(to_type, "float") {
        Some(Dtype::Float64)
    } else if same_text(to_type, "integer") {
        Some(Dtype::Int64)
    } else if same_text(to_type, "date") {
        Some(Dtype::Date32)
    } else if same_text(to_type, "datetime") {
        Some(Dtype::Date64)
    } else if same_text(to_type, "boolean") {
        Some(Dtype::Boolean)
    } else if same_text(to_type, "string") {
        Some(Dtype::Utf8)
    } else {
        None
    }
}

/// Whether a series of dtype `from` can be converted to dtype `to`: in one
/// step of the engine, or between floats and dates by way of integers.
pub open spec fn convertible(from: Dtype, to: Dtype) -> bool {
    castable(from, to) || (from == Dtype::Float64 && (to == Dtype::Date32 || to == Dtype::Date64))
        || (to == Dtype::Float64 && (from == Dtype::Date32 || from == Dtype::Date64))
}

/// The cells of a series of dtype `from` converted to dtype `to`.
pub open spec fn converted_cells(from: Dtype, to: Dtype, cells: Seq<Cell>) -> Seq<Cell> {
    if castable(from, to) {
        cast_cells(from, to, cells)
    } else {
        cast_cells(Dtype::Int64, to, cast_cells(from, Dtype::Int64, cells))
    }
}

/// What converting a series to a dtype gives: a series of that dtype, as
/// long and under the same name, each cell converted on its own. A null
/// stays null. A value that has no counterpart in the target dtype, such as
/// a string that is no date, becomes null at its position: it does not stop
/// the conversion of the others, so every cell of the result is null or a
/// value of the target dtype.
///
/// `TypeMismatch` if the column has none of the six dtypes, or if values of
/// its dtype are not converted to the target.
pub open spec fn gives_converted(r: Result<ExSeries, ExplorerError>, data: SeriesView, to: Dtype) -> bool {
    match data.dtype {
        Some(from) if convertible(from, to) => {
            &&& gives(r, Some(to), converted_cells(from, to, data.cells))
            &&& r.unwrap()@.name == data.name
            &&& r.unwrap()@.cells.len() == data.cells.len()
            &&& cells_fit(to, r.unwrap()@.cells)
            &&& forall|i: int|
                0 <= i < data.cells.len() && data.cells[i] is Null ==> #[trigger] r.unwrap()@.cells[i] is Null
        },
        _ => fails(r, ExplorerError::TypeMismatch),
    }
}

/// The series converted to the given dtype; see `gives_converted`.
pub fn cast_to(s: &ExSeries, to: Dtype) -> (r: Result<ExSeries, ExplorerError>)
    ensures
        gives_converted(r, s@, to),
{
    let from = match series_dtype_of(&s.series) {
        Some(d) => d,
        None => {
            return Err(ExplorerError::TypeMismatch);
        },
    };
    if engine_converts(from, to) {
        return match cast_column(&s.series, to) {
            Ok(out) => {
                assert(series_cells(out) =~= cast_cells(from, to, s@.cells));
                // The dtype vouches for the cells.
                let _ = series_dtype_of(&out);
                Ok(ExSeries::new(out))
            },
            Err(e) => Err(ExplorerError::Polars(error_message(&e))),
        };
    }
    match (from, to) {
        (Dtype::Float64, Dtype::Date32) | (Dtype::Float64, Dtype::Date64) | (
            Dtype::Date32,
            Dtype::Float64,
        ) | (Dtype::Date64, Dtype::Float64) => {
            // Between floats and dates the engine takes a way of its own, on
            // which it panics on floats without a date, and misplaces the
            // nulls of a column that was cut out of another. The way by
            // integers has neither fault.
            let whole = match cast_column(&s.series, Dtype::Int64) {
                Ok(out) => out,
                Err(e) => {
                    return Err(ExplorerError::Polars(error_message(&e)));
                },
            };
            assert(series_cells(whole) =~= cast_cells(from, Dtype::Int64, s@.cells));
            match cast_column(&whole, to) {
                Ok(out) => {
                    assert(series_cells(out) =~= cast_cells(
                        Dtype::Int64,
                        to,
                        series_cells(whole),
                    ));
                    // The dtype vouches for the cells.
                    let _ = series_dtype_of(&out);
                    Ok(ExSeries::new(out))
                },
                Err(e) => Err(ExplorerError::Polars(error_message(&e))),
            }
        },
        _ => Err(ExplorerError::TypeMismatch),
    }
}

/// Whether the engine converts the pair in one step.
fn engine_converts(from: Dtype, to: Dtype) -> (r: bool)
    ensures
        r == castable(from, to),
{
    if from == to {
        return true;
    }
    match (from, to) {
        (Dtype::Boolean, Dtype::Int64) | (Dtype::Boolean, Dtype::Float64) | (
            Dtype::Boolean,
            Dtype::Utf8,
        ) => true,
        (Dtype::Int64, _) => true,
        (Dtype::Float64, Dtype::Boolean) | (Dtype::Float64, Dtype::Int64) | (
            Dtype::Float64,
            Dtype::Utf8,
        ) => true,
        (Dtype::Utf8, Dtype::Int64) | (Dtype::Utf8, Dtype::Float64) | (
            Dtype::Utf8,
            Dtype::Date32,
        ) | (Dtype::Utf8, Dtype::Date64) => true,
        (Dtype::Date32, Dtype::Int64) | (Dtype::Date32, Dtype::Date64) => true,
        (Dtype::Date64, Dtype::Int64) | (Dtype::Date64, Dtype::Date32) => true,
        _ => false,
    }
}

/// The series converted to the dtype that `to_type` names: `float`,
/// `integer`, `date`, `datetime`, `boolean` or `string`.
///
/// `UnknownOption` with the name if it is none of these; else as
/// `gives_converted` says.
pub fn cast(s: &ExSeries, to_type: &str) -> (r: Result<ExSeries, ExplorerError>)
    ensures
        match cast_target_of(to_type@) {
            None => fails_unknown(r, to_type@),
            Some(to) => gives_converted(r, s@, to),
        },
{
    match cast_target(to_type) {
        None => Err(ExplorerError::UnknownOption(to_type.to_owned())),
        Some(to) => cast_to(s, to),
    }
}

/// The series converted to the dtype that `to_type` names; see `cast`.
pub fn s_cast(data: &ExSeries, to_type: &str) -> (r: Result<ExSeries, ExplorerError>)
    ensures
        match cast_target_of(to_type@) {
            None => fails_unknown(r, to_type@),
            Some(to) => gives_converted(r, data@, to),
        },
{
    cast(data, to_type)
}

} // verus!
