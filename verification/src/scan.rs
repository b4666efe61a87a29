//! Running sums and extremes, and the peaks of a series.

use vstd::prelude::*;
use crate::dtype::Dtype;
use crate::engine::{series_cum_max, series_cum_min, series_cum_sum, series_dtype_of};
use crate::engine::series_peak_max;
use crate::engine::series_peak_min;
use crate::error::ExplorerError;
use crate::model::{float_running_cells, negative_sum, peak_cells, positive_sum, zero_of};
use crate::model::{running_cells, sums_fit, Rolling, SeriesView};
use crate::scalar::{Cell, Scalar};
use crate::series::{fails, gives, named_as, read_cells, stored, ExSeries};

verus! {

/// What a running sum, least or greatest value gives: a series of the same
/// name and dtype with a null wherever the series has one. The values of
/// integers and dates are exact; those of floats are what the run through
/// the floats ends with.
///
/// `TypeMismatch` unless the series holds integers, floats or, for the
/// extremes, dates. `OutOfRange` for a sum of integers of which the positive
/// or the negative part does not add up within 64 bits.
pub open spec fn gives_running(
    r: Result<ExSeries, ExplorerError>,
    kind: Rolling,
    data: SeriesView,
    reverse: bool,
) -> bool {
    match data.dtype {
        Some(Dtype::Float64) => gives(
            r,
            data.dtype,
            float_running_cells(kind, data.cells, reverse),
        ) && r.unwrap()@.name == data.name,
        Some(dtype) if dtype.is_integral() && (dtype == Dtype::Int64 || !(kind is Sum)) => if kind is Sum
            && !sums_fit(data.cells) {
            fails(r, ExplorerError::OutOfRange)
        } else {
            gives(r, data.dtype, running_cells(kind, data.cells, reverse)) && r.unwrap()@.name
                == data.name
        },
        _ => fails(r, ExplorerError::TypeMismatch),
    }
}

/// The sum of the positive and the sum of the negative integers read from a
/// column.
pub(crate) fn signed_sums(values: &Vec<Scalar>, Ghost(cells): Ghost<Seq<Cell>>) -> (r: (i128, i128))
    requires
        values@.len() == cells.len(),
        forall|i: int| 0 <= i < cells.len() ==> (#[trigger] values@[i])@ == cells[i],
    ensures
        r.0 == positive_sum(cells),
        r.1 == negative_sum(cells),
{
    let mut above: i128 = 0;
    let mut below: i128 = 0;
    let mut i: usize = 0;
    while i < values.len()
        invariant
            i <= values@.len(),
            values@.len() == cells.len(),
            forall|j: int| 0 <= j < cells.len() ==> (#[trigger] values@[j])@ == cells[j],
            above == positive_sum(cells.take(i as int)),
            below == negative_sum(cells.take(i as int)),
            0 <= above <= i * 0x8000_0000_0000_0000,
            -(i * 0x8000_0000_0000_0000) <= below <= 0,
        decreases values@.len() - i,
    {
        proof {
            let next = cells.take(i + 1);
            assert(next.drop_last() =~= cells.take(i as int));
            assert(next.last() == cells[i as int]);
            assert(values@[i as int]@ == cells[i as int]);
        }
        match &values[i] {
            Scalar::Integer(v) => {
                if *v > 0 {
                    above = above + (*v as i128);
                } else if *v < 0 {
                    below = below + (*v as i128);
                }
            },
            _ => {},
        }
        i += 1;
    }
    proof {
        assert(cells.take(i as int) =~= cells);
    }
    (above, below)
}

/// Whether every sum of some of the integers read from a column fits in 64
/// bits.
pub(crate) fn sums_fit_in(values: &Vec<Scalar>, Ghost(cells): Ghost<Seq<Cell>>) -> (r: bool)
    requires
        values@.len() == cells.len(),
        forall|i: int| 0 <= i < cells.len() ==> (#[trigger] values@[i])@ == cells[i],
    ensures
        r == sums_fit(cells),
{
    let (above, below) = signed_sums(values, Ghost(cells));
    above <= i64::MAX as i128 && below >= i64::MIN as i128
}

/// At each position the sum of the values up to and with it, or from it on
/// if `reverse` is set; see `gives_running`.
pub fn s_cum_sum(data: &ExSeries, reverse: bool) -> (r: Result<ExSeries, ExplorerError>)
    ensures
        gives_running(r, Rolling::Sum, data@, reverse),
{
    match series_dtype_of(&data.series) {
        Some(Dtype::Float64) => {},
        Some(Dtype::Int64) => {
            let values = read_cells(&data.series);
            if !sums_fit_in(&values, Ghost(data@.cells)) {
                return Err(ExplorerError::OutOfRange);
            }
        },
        _ => {
            return Err(ExplorerError::TypeMismatch);
        },
    }
    Ok(named_as(data, series_cum_sum(&stored(&data.series), reverse)))
}

/// Whether a dtype has an order in which the engine keeps a running extreme.
fn has_extremes(dtype: Option<Dtype>) -> (r: bool)
    ensures
        r == (dtype is Some && (dtype.unwrap().is_integral() || dtype == Some(Dtype::Float64))),
{
    match dtype {
        Some(Dtype::Int64) | Some(Dtype::Date32) | Some(Dtype::Date64) | Some(Dtype::Float64) => true,
        _ => false,
    }
}

/// At each position the greatest of the values up to and with it, or from
/// it on if `reverse` is set; see `gives_running`.
pub fn s_cum_max(data: &ExSeries, reverse: bool) -> (r: Result<ExSeries, ExplorerError>)
    ensures
        gives_running(r, Rolling::Max, data@, reverse),
{
    if !has_extremes(series_dtype_of(&data.series)) {
        return Err(ExplorerError::TypeMismatch);
    }
    Ok(named_as(data, series_cum_max(&stored(&data.series), reverse)))
}

/// At each position the least of the values up to and with it, or from it
/// on if `reverse` is set; see `gives_running`.
pub fn s_cum_min(data: &ExSeries, reverse: bool) -> (r: Result<ExSeries, ExplorerError>)
    ensures
        gives_running(r, Rolling::Min, data@, reverse),
{
    if !has_extremes(series_dtype_of(&data.series)) {
        return Err(ExplorerError::TypeMismatch);
    }
    Ok(named_as(data, series_cum_min(&stored(&data.series), reverse)))
}

/// What the mask of peaks, or of troughs, is: a Boolean series with one cell
/// for each cell of the series. A cell is a peak if both its neighbours are
/// below it, zero taken for a neighbour that it lacks; where a neighbour or
/// the cell is null, it is no peak if the other neighbour is not below it,
/// and else null.
///
/// `TypeMismatch` unless the series holds integers, dates or floats.
pub open spec fn gives_peaks(r: Result<ExSeries, ExplorerError>, data: SeriesView, peak: bool) -> bool {
    match data.dtype {
        Some(dtype) if dtype.is_integral() || dtype == Dtype::Float64 => gives(
            r,
            Some(Dtype::Boolean),
            peak_cells(data.cells, peak, zero_of(dtype)),
        ),
        _ => fails(r, ExplorerError::TypeMismatch),
    }
}

/// Which values lie above both their neighbours; see `gives_peaks`.
pub fn s_peak_max(data: &ExSeries) -> (r: Result<ExSeries, ExplorerError>)
    ensures
        gives_peaks(r, data@, true),
{
    if !has_extremes(series_dtype_of(&data.series)) {
        return Err(ExplorerError::TypeMismatch);
    }
    Ok(ExSeries::new(series_peak_max(&stored(&data.series))))
}

/// Which values lie below both their neighbours; see `gives_peaks`.
pub fn s_peak_min(data: &ExSeries) -> (r: Result<ExSeries, ExplorerError>)
    ensures
        gives_peaks(r, data@, false),
{
    if !has_extremes(series_dtype_of(&data.series)) {
        return Err(ExplorerError::TypeMismatch);
    }
    Ok(ExSeries::new(series_peak_min(&stored(&data.series))))
}

} // verus!
