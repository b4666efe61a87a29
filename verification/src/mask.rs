//! Operations on null positions and on boolean masks.

use vstd::prelude::*;
use crate::dtype::Dtype;
use crate::engine::{error_message, series_arg_true, series_drop_nulls, series_dtype_of};
use crate::engine::{series_filter, series_is_not_null, series_is_null, series_len};
use crate::engine::{series_name_of, series_not, series_of_ints, series_take};
use crate::engine::{series_cells, series_of_bools, series_zip_with};
use crate::error::ExplorerError;
use crate::model::{count_true, drop_null_cells, filter_cells, gather_cells, int_cells};
use crate::model::{is_not_null_cells, is_null_cells, lemma_drop_nulls, lemma_filter_len};
use crate::model::{not_cells, null_count, true_positions};
use crate::model::{bool_cells, cell_fits, lemma_no_nulls, settled_mask, zip_cells};
use crate::scalar::{Cell, Scalar};
use crate::series::{cast_column, fails, gives, read_cells, stored, ExSeries};

verus! {

/// A Boolean series that holds `true` where `data` is null. It has no nulls
/// itself.
///
/// `TypeMismatch` for a column of none of the six dtypes.
pub fn s_is_null(data: &ExSeries) -> (r: Result<ExSeries, ExplorerError>)
    ensures
        data@.dtype is None ==> fails(r, ExplorerError::TypeMismatch),
        data@.dtype is Some ==> gives(r, Some(Dtype::Boolean), is_null_cells(data@.cells)),
{
    if series_dtype_of(&data.series).is_none() {
        return Err(ExplorerError::TypeMismatch);
    }
    Ok(ExSeries::new(series_is_null(&data.series)))
}

/// A Boolean series that holds `true` where `data` has a value. It has no
/// nulls itself.
///
/// `TypeMismatch` for a column of none of the six dtypes.
pub fn s_is_not_null(data: &ExSeries) -> (r: Result<ExSeries, ExplorerError>)
    ensures
        data@.dtype is None ==> fails(r, ExplorerError::TypeMismatch),
        data@.dtype is Some ==> gives(r, Some(Dtype::Boolean), is_not_null_cells(data@.cells)),
{
    if series_dtype_of(&data.series).is_none() {
        return Err(ExplorerError::TypeMismatch);
    }
    Ok(ExSeries::new(series_is_not_null(&data.series)))
}

/// The cells that are not null, in order and under the same name. The result
/// has no null and is shorter than `data` by the number of its nulls.
///
/// `TypeMismatch` for a column of none of the six dtypes.
pub fn s_drop_nulls(data: &ExSeries) -> (r: Result<ExSeries, ExplorerError>)
    ensures
        data@.dtype is None ==> fails(r, ExplorerError::TypeMismatch),
        data@.dtype is Some ==> gives(r, data@.dtype, drop_null_cells(data@.cells)),
        data@.dtype is Some ==> r.unwrap()@.name == data@.name,
        data@.dtype is Some ==> null_count(r.unwrap()@.cells) == 0,
        data@.dtype is Some ==> r.unwrap()@.cells.len() == data@.cells.len() - null_count(
            data@.cells,
        ),
{
    if series_dtype_of(&data.series).is_none() {
        return Err(ExplorerError::TypeMismatch);
    }
    proof {
        lemma_drop_nulls(data@.cells);
    }
    Ok(ExSeries::new(series_drop_nulls(&data.series)))
}

/// The cells of `data` at the positions where `filter` holds `true`, in order
/// and under the same name. A null in the mask selects nothing. The result
/// has as many cells as the mask holds `true`.
///
/// `TypeMismatch` unless `data` has one of the six dtypes and `filter` is
/// Boolean; else `ShapeMismatch` unless both have the same length.
pub fn s_filter(data: &ExSeries, filter: &ExSeries) -> (r: Result<ExSeries, ExplorerError>)
    ensures
        data@.dtype is None || filter@.dtype != Some(Dtype::Boolean) ==> fails(
            r,
            ExplorerError::TypeMismatch,
        ),
        data@.dtype is Some && filter@.dtype == Some(Dtype::Boolean) && data@.cells.len()
            != filter@.cells.len() ==> fails(r, ExplorerError::ShapeMismatch),
        data@.dtype is Some && filter@.dtype == Some(Dtype::Boolean) && data@.cells.len()
            == filter@.cells.len() ==> gives(
            r,
            data@.dtype,
            filter_cells(data@.cells, filter@.cells),
        ) && r.unwrap()@.name == data@.name && r.unwrap()@.cells.len() == count_true(
            filter@.cells,
        ),
{
    if series_dtype_of(&data.series).is_none() {
        return Err(ExplorerError::TypeMismatch);
    }
    match series_dtype_of(&filter.series) {
        Some(Dtype::Boolean) => {},
        _ => {
            return Err(ExplorerError::TypeMismatch);
        },
    }
    if series_len(&data.series) != series_len(&filter.series) {
        return Err(ExplorerError::ShapeMismatch);
    }
    proof {
        lemma_filter_len(data@.cells, filter@.cells);
    }
    match series_filter(&stored(&data.series), &stored(&filter.series)) {
        Ok(s) => Ok(ExSeries::new(s)),
        Err(e) => Err(ExplorerError::Polars(error_message(&e))),
    }
}

/// The cells at the given positions, in the order of the positions and under
/// the same name.
///
/// `TypeMismatch` for a column of none of the six dtypes; else `OutOfRange`
/// if a position lies past the end.
pub fn s_take(data: &ExSeries, indices: Vec<u32>) -> (r: Result<ExSeries, ExplorerError>)
    ensures
        data@.dtype is None ==> fails(r, ExplorerError::TypeMismatch),
        data@.dtype is Some && (exists|i: int|
            0 <= i < indices@.len() && indices@[i] >= data@.cells.len()) ==> fails(
            r,
            ExplorerError::OutOfRange,
        ),
        data@.dtype is Some && (forall|i: int|
            0 <= i < indices@.len() ==> indices@[i] < data@.cells.len()) ==> gives(
            r,
            data@.dtype,
            gather_cells(data@.cells, indices@),
        ) && r.unwrap()@.name == data@.name,
{
    if series_dtype_of(&data.series).is_none() {
        return Err(ExplorerError::TypeMismatch);
    }
    let n = series_len(&data.series);
    let mut i: usize = 0;
    while i < indices.len()
        invariant
            i <= indices@.len(),
            n == data@.cells.len(),
            data@.dtype is Some,
            forall|j: int| 0 <= j < i ==> indices@[j] < n,
        decreases indices@.len() - i,
    {
        if indices[i] as usize >= n {
            return Err(ExplorerError::OutOfRange);
        }
        i += 1;
    }
    Ok(ExSeries::new(series_take(&data.series, &indices)))
}

/// An Int64 series of the positions at which the Boolean series `data` holds
/// `true`, ascending and under the same name.
///
/// `TypeMismatch` unless `data` is Boolean; `OutOfRange` for a series of
/// more than `u32::MAX` cells, whose positions the engine cannot count.
pub fn s_arg_true(data: &ExSeries) -> (r: Result<ExSeries, ExplorerError>)
    ensures
        data@.dtype != Some(Dtype::Boolean) ==> fails(r, ExplorerError::TypeMismatch),
        data@.dtype == Some(Dtype::Boolean) && data@.cells.len() > u32::MAX ==> fails(
            r,
            ExplorerError::OutOfRange,
        ),
        data@.dtype == Some(Dtype::Boolean) && data@.cells.len() <= u32::MAX ==> gives(
            r,
            Some(Dtype::Int64),
            true_positions(data@.cells).map_values(|p: int| Cell::Int(p)),
        ) && r.unwrap()@.name == data@.name,
{
    match series_dtype_of(&data.series) {
        Some(Dtype::Boolean) => {},
        _ => {
            return Err(ExplorerError::TypeMismatch);
        },
    }
    if series_len(&data.series) > u32::MAX as usize {
        return Err(ExplorerError::OutOfRange);
    }
    let positions = match series_arg_true(&data.series) {
        Ok(p) => p,
        Err(e) => {
            return Err(ExplorerError::Polars(error_message(&e)));
        },
    };
    let mut values: Vec<Option<i64>> = Vec::new();
    let mut i: usize = 0;
    while i < positions.len()
        invariant
            i <= positions@.len(),
            values@.len() == i,
            forall|j: int| 0 <= j < i ==> values@[j] == Some(positions@[j] as i64),
        decreases positions@.len() - i,
    {
        values.push(Some(positions[i] as i64));
        i += 1;
    }
    let name = series_name_of(&data.series);
    let out = series_of_ints(name.as_str(), &values);
    assert(int_cells(values@) =~= true_positions(data@.cells).map_values(|p: int| Cell::Int(p)));
    Ok(ExSeries::new(out))
}

/// Each boolean negated, a null kept, under the same name.
///
/// `TypeMismatch` unless `data` is Boolean.
pub fn s_not(data: &ExSeries) -> (r: Result<ExSeries, ExplorerError>)
    ensures
        data@.dtype != Some(Dtype::Boolean) ==> fails(r, ExplorerError::TypeMismatch),
        data@.dtype == Some(Dtype::Boolean) ==> gives(
            r,
            Some(Dtype::Boolean),
            not_cells(data@.cells),
        ) && r.unwrap()@.name == data@.name,
{
    match series_dtype_of(&data.series) {
        Some(Dtype::Boolean) => {},
        _ => {
            return Err(ExplorerError::TypeMismatch);
        },
    }
    match series_not(&data.series) {
        Ok(s) => Ok(ExSeries::new(s)),
        Err(e) => Err(ExplorerError::Polars(error_message(&e))),
    }
}

/// The mask read from a column, with `false` in place of each null.
fn settle(values: &Vec<Scalar>, Ghost(mask): Ghost<Seq<Cell>>) -> (r: Vec<Option<bool>>)
    requires
        values@.len() == mask.len(),
        forall|i: int| 0 <= i < mask.len() ==> (#[trigger] values@[i])@ == mask[i],
    ensures
        bool_cells(r@) == settled_mask(mask),
{
    let mut out: Vec<Option<bool>> = Vec::new();
    let mut i: usize = 0;
    while i < values.len()
        invariant
            i <= values@.len(),
            values@.len() == mask.len(),
            forall|j: int| 0 <= j < mask.len() ==> (#[trigger] values@[j])@ == mask[j],
            out@.len() == i,
            forall|j: int| 0 <= j < i ==> #[trigger] out@[j] == Some(mask[j] == Cell::Bool(true)),
        decreases values@.len() - i,
    {
        assert(values@[i as int]@ == mask[i as int]);
        let chosen = match &values[i] {
            Scalar::Boolean(b) => *b,
            _ => false,
        };
        out.push(Some(chosen));
        i += 1;
    }
    proof {
        assert(bool_cells(out@) =~= settled_mask(mask));
    }
    out
}

/// At each position the cell of `data` where `mask` holds `true`, and the
/// cell of `other` where it holds `false` or null, under the name of `data`.
///
/// `TypeMismatch` unless `data` and `other` have the same dtype, one of the
/// six, and `mask` is Boolean; else `ShapeMismatch` unless all three have
/// the same length.
pub fn s_zip_with(data: &ExSeries, mask: &ExSeries, other: &ExSeries) -> (r: Result<
    ExSeries,
    ExplorerError,
>)
    ensures
        if data@.dtype is None || data@.dtype != other@.dtype || mask@.dtype != Some(
            Dtype::Boolean,
        ) {
            fails(r, ExplorerError::TypeMismatch)
        } else if data@.cells.len() != mask@.cells.len() || other@.cells.len()
            != mask@.cells.len() {
            fails(r, ExplorerError::ShapeMismatch)
        } else {
            gives(r, data@.dtype, zip_cells(data@.cells, mask@.cells, other@.cells))
                && r.unwrap()@.name == data@.name
        },
{
    let dtype = match (series_dtype_of(&data.series), series_dtype_of(&other.series)) {
        (Some(a), Some(b)) => {
            if a != b {
                return Err(ExplorerError::TypeMismatch);
            }
            a
        },
        _ => {
            return Err(ExplorerError::TypeMismatch);
        },
    };
    match series_dtype_of(&mask.series) {
        Some(Dtype::Boolean) => {},
        _ => {
            return Err(ExplorerError::TypeMismatch);
        },
    }
    let n = series_len(&mask.series);
    if series_len(&data.series) != n || series_len(&other.series) != n {
        return Err(ExplorerError::ShapeMismatch);
    }
    // Under a null of the mask the engine reads a bit that nothing fixes: the
    // nulls are settled as `false` first.
    let flags = settle(&read_cells(&mask.series), Ghost(mask@.cells));
    let settled = series_of_bools("mask", &flags);
    proof {
        lemma_no_nulls(series_cells(settled));
        assert(zip_cells(data@.cells, series_cells(settled), other@.cells) =~= zip_cells(
            data@.cells,
            mask@.cells,
            other@.cells,
        ));
    }
    let is_date = match dtype {
        Dtype::Date32 | Dtype::Date64 => true,
        _ => false,
    };
    if !is_date {
        return match series_zip_with(&stored(&data.series), &settled, &stored(&other.series)) {
            Ok(out) => Ok(ExSeries::new(out)),
            Err(e) => Err(ExplorerError::Polars(error_message(&e))),
        };
    }
    // The engine cannot select among dates: they are selected as the
    // integers that count them.
    let left = match cast_column(&data.series, Dtype::Int64) {
        Ok(s) => s,
        Err(e) => {
            return Err(ExplorerError::Polars(error_message(&e)));
        },
    };
    let right = match cast_column(&other.series, Dtype::Int64) {
        Ok(s) => s,
        Err(e) => {
            return Err(ExplorerError::Polars(error_message(&e)));
        },
    };
    let chosen = match series_zip_with(&stored(&left), &settled, &stored(&right)) {
        Ok(s) => s,
        Err(e) => {
            return Err(ExplorerError::Polars(error_message(&e)));
        },
    };
    match cast_column(&chosen, dtype) {
        Ok(out) => {
            proof {
                let a = data@.cells;
                let b = other@.cells;
                let want = zip_cells(a, mask@.cells, b);
                assert forall|i: int| 0 <= i < a.len() implies series_cells(out)[i] == want[i] by {
                    assert(cell_fits(dtype, a[i]));
                    assert(cell_fits(dtype, b[i]));
                    let _ = series_cells(left)[i];
                    let _ = series_cells(right)[i];
                    let _ = series_cells(chosen)[i];
                }
                assert(series_cells(out) =~= want);
            }
            Ok(ExSeries::new(out))
        },
        Err(e) => Err(ExplorerError::Polars(error_message(&e))),
    }
}

} // verus!
