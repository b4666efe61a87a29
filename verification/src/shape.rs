//! Operations that cut, reorder or join the positions of a series.

use vstd::prelude::*;
use crate::engine::{series_append, series_dtype_of, series_head, series_len, series_n_chunks};
use crate::engine::{series_rechunk, series_reverse, series_shift, series_slice, series_tail};
use crate::engine::{error_message, series_take_every};
use crate::error::ExplorerError;
use crate::model::{every_nth_cells, head_cells, joined_chunks, reverse_cells, shift_cells};
use crate::model::{slice_cells, tail_cells};
use crate::series::{named_as, ExSeries};

verus! {

/// The number of cells that `head` and `tail` give when none is asked for.
pub const DEFAULT_ROWS: usize = 10;

/// In how many pieces the engine stores the series: a series that was just
/// built is stored in one, and one that others were joined to in theirs as
/// well.
pub fn s_n_chunks(data: &ExSeries) -> (r: Result<usize, ExplorerError>)
    ensures
        r is Ok,
        r.unwrap() == data.pieces(),
{
    Ok(series_n_chunks(&data.series))
}

/// The same series, stored in one piece. An empty series that is stored in
/// no piece stays as it is.
pub fn s_rechunk(data: &ExSeries) -> (r: Result<ExSeries, ExplorerError>)
    ensures
        r is Ok,
        r.unwrap()@ == data@,
        r.unwrap().pieces() == if data.pieces() == 0 {
            0nat
        } else {
            1nat
        },
{
    if series_n_chunks(&data.series) == 0 {
        return Ok(ExSeries::new(data.series.clone()));
    }
    Ok(ExSeries::new(series_rechunk(&data.series)))
}

/// The first `num_elements` cells, or all of them if the series is shorter,
/// under the same name.
pub fn s_limit(data: &ExSeries, num_elements: usize) -> (r: Result<ExSeries, ExplorerError>)
    ensures
        r is Ok,
        r.unwrap()@.name == data@.name,
        r.unwrap()@.dtype == data@.dtype,
        r.unwrap()@.cells == head_cells(data@.cells, num_elements as nat),
{
    let out = series_slice(&data.series, 0, num_elements);
    assert(slice_cells(data@.cells, 0, num_elements as nat) =~= head_cells(
        data@.cells,
        num_elements as nat,
    ));
    Ok(named_as(data, out))
}

/// `length` cells from `offset` on. A negative offset is counted from the
/// end; what lies outside the series is cut off, so the result may be shorter
/// than `length`, or empty. The name stays.
pub fn s_slice(data: &ExSeries, offset: i64, length: usize) -> (r: Result<ExSeries, ExplorerError>)
    ensures
        r is Ok,
        r.unwrap()@.name == data@.name,
        r.unwrap()@.dtype == data@.dtype,
        r.unwrap()@.cells == slice_cells(data@.cells, offset as int, length as nat),
{
    let n = series_len(&data.series);
    // The engine cannot negate the least offset. It lies 2^63 cells before
    // the end: before the start of any series shorter than that, as the next
    // offset does.
    let off = if offset == i64::MIN {
        if (n as u64) < 0x8000_0000_0000_0000u64 {
            i64::MIN + 1
        } else {
            ((n as u64) - 0x8000_0000_0000_0000u64) as i64
        }
    } else {
        offset
    };
    let out = series_slice(&data.series, off, length);
    assert(slice_cells(data@.cells, off as int, length as nat) == slice_cells(
        data@.cells,
        offset as int,
        length as nat,
    ));
    Ok(named_as(data, out))
}

/// The first `length` cells, ten if no length is given, or all of them if the
/// series is shorter, under the same name.
pub fn s_head(data: &ExSeries, length: Option<usize>) -> (r: Result<ExSeries, ExplorerError>)
    ensures
        r is Ok,
        r.unwrap()@.name == data@.name,
        r.unwrap()@.dtype == data@.dtype,
        r.unwrap()@.cells == head_cells(
            data@.cells,
            match length {
                Some(n) => n as nat,
                None => DEFAULT_ROWS as nat,
            },
        ),
{
    let n = match length {
        Some(n) => n,
        None => DEFAULT_ROWS,
    };
    Ok(named_as(data, series_head(&data.series, n)))
}

/// The last `length` cells, ten if no length is given, or all of them if the
/// series is shorter, under the same name.
pub fn s_tail(data: &ExSeries, length: Option<usize>) -> (r: Result<ExSeries, ExplorerError>)
    ensures
        r is Ok,
        r.unwrap()@.name == data@.name,
        r.unwrap()@.dtype == data@.dtype,
        r.unwrap()@.cells == tail_cells(
            data@.cells,
            match length {
                Some(n) => n as nat,
                None => DEFAULT_ROWS as nat,
            },
        ),
{
    let n = match length {
        Some(n) => n,
        None => DEFAULT_ROWS,
    };
    Ok(named_as(data, series_tail(&data.series, n)))
}

/// The cells in reverse order, under the same name.
pub fn s_reverse(data: &ExSeries) -> (r: Result<ExSeries, ExplorerError>)
    ensures
        r is Ok,
        r.unwrap()@.name == data@.name,
        r.unwrap()@.dtype == data@.dtype,
        r.unwrap()@.cells == reverse_cells(data@.cells),
{
    Ok(named_as(data, series_reverse(&data.series)))
}

/// The cells moved by `periods` positions: towards the end if positive,
/// towards the start if negative. The length and the name stay; what moves
/// in is null.
pub fn s_shift(data: &ExSeries, periods: i64) -> (r: Result<ExSeries, ExplorerError>)
    ensures
        r is Ok,
        r.unwrap()@.name == data@.name,
        r.unwrap()@.dtype == data@.dtype,
        r.unwrap()@.cells == shift_cells(data@.cells, periods as int),
{
    Ok(named_as(data, series_shift(&data.series, periods)))
}

/// Every `n`-th cell, starting with the first, under the same name.
/// `OutOfRange` for a step of 0.
pub fn s_take_every(data: &ExSeries, n: usize) -> (r: Result<ExSeries, ExplorerError>)
    ensures
        n == 0 ==> r == Err::<ExSeries, ExplorerError>(ExplorerError::OutOfRange),
        n > 0 ==> r is Ok && r.unwrap()@.name == data@.name && r.unwrap()@.dtype == data@.dtype
            && r.unwrap()@.cells == every_nth_cells(data@.cells, n as nat),
{
    if n == 0 {
        return Err(ExplorerError::OutOfRange);
    }
    Ok(named_as(data, series_take_every(&data.series, n)))
}

/// The cells of `other` after those of `data`, under the name of `data`, and
/// the pieces of `other` after those of `data`.
///
/// `TypeMismatch` unless both have the same dtype, one of the six.
pub fn s_append(data: &ExSeries, other: &ExSeries) -> (r: Result<ExSeries, ExplorerError>)
    ensures
        (data@.dtype is None || data@.dtype != other@.dtype) ==> r == Err::<
            ExSeries,
            ExplorerError,
        >(ExplorerError::TypeMismatch),
        data@.dtype is Some && data@.dtype == other@.dtype ==> r is Ok && r.unwrap()@.name
            == data@.name && r.unwrap()@.dtype == data@.dtype && r.unwrap()@.cells == data@.cells
            + other@.cells && r.unwrap().pieces() == joined_chunks(
            data.pieces(),
            data@.cells.len(),
            other.pieces(),
        ),
{
    let left = series_dtype_of(&data.series);
    let right = series_dtype_of(&other.series);
    match (left, right) {
        (Some(a), Some(b)) => {
            if a != b {
                return Err(ExplorerError::TypeMismatch);
            }
        },
        _ => {
            return Err(ExplorerError::TypeMismatch);
        },
    }
    match series_append(&data.series, &other.series) {
        Ok(s) => Ok(ExSeries::new(s)),
        Err(e) => Err(ExplorerError::Polars(error_message(&e))),
    }
}

} // verus!
