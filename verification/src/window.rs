//! Rolling aggregation over a trailing window.
//!
//! The window at a position holds the `window_size` cells up to and with that
//! position; at the start of the series it holds fewer. It yields a value if
//! it holds at least `min_periods` values. Where nulls are not ignored, it
//! must moreover be full and free of nulls: a null in the window, and each of
//! the first `window_size - 1` positions, then gives null.

use vstd::prelude::*;
use crate::dtype::Dtype;
use crate::engine::{error_message, series_cells, series_dtype_of, series_len};
use crate::engine::{series_rolling_max, series_rolling_mean, series_rolling_min};
use crate::engine::series_rolling_sum;
use crate::error::ExplorerError;
use crate::model::{cast_cells, float_rolling_cells, float_rolling_mean, is_float_rolling};
use crate::model::{lemma_same_nulls, rolling_cells};
use crate::model::{sums_fit, window_at, window_defined};
use crate::model::Rolling;
use crate::scalar::Cell;
use crate::scan::sums_fit_in;
use crate::series::{cast_column, fails, gives, read_cells, ExSeries};

verus! {

/// The number of values that a window needs: `min_periods` if given, else
/// the size of the window.
pub open spec fn min_periods_of(window_size: u32, min_periods: Option<u32>) -> u32 {
    match min_periods {
        Some(mp) => mp,
        None => window_size,
    }
}

/// The number of values that a window needs: `min_periods` if given, else
/// the size of the window.
pub fn effective_min_periods(window_size: u32, min_periods: Option<u32>) -> (r: u32)
    ensures
        r == min_periods_of(window_size, min_periods),
{
    match min_periods {
        Some(mp) => mp,
        None => window_size,
    }
}

/// Whether a window of this size and need can roll over a series of `len`
/// cells: the window is not empty, needs no more values than it can hold,
/// and the series is no longer than a 32-bit count.
pub open spec fn window_fits(len: nat, window_size: u32, min_periods: u32) -> bool {
    0 < window_size && min_periods <= window_size && len <= u32::MAX
}

/// The size of the window that the engine is asked for. The engine keeps a
/// buffer as large as the window; a window wider than the series yields, at
/// every position, what a window of one cell more than the series yields.
pub open spec fn handed_window(window_size: u32, len: nat) -> u32 {
    if window_size > len {
        (len + 1) as u32
    } else {
        window_size
    }
}

/// The number of values that the window needs which the engine is asked
/// for: no more than the window that it is asked for holds.
pub open spec fn handed_periods(min_periods: u32, window_size: u32, len: nat) -> u32 {
    if min_periods > handed_window(window_size, len) {
        handed_window(window_size, len)
    } else {
        min_periods
    }
}

/// A window wider than a series yields values where the window of one cell
/// more than the series does, and yields them of the same cells.
pub proof fn lemma_wide_window(
    cells: Seq<Cell>,
    wide: nat,
    ignore_null: bool,
    min_periods: nat,
    i: int,
)
    requires
        wide > cells.len(),
        0 <= i < cells.len(),
    ensures
        window_at(cells, i, wide) == window_at(cells, i, cells.len() + 1),
        window_defined(cells, i, wide, ignore_null, min_periods) == window_defined(
            cells,
            i,
            cells.len() + 1,
            ignore_null,
            if min_periods > cells.len() + 1 {
                cells.len() + 1
            } else {
                min_periods
            },
        ),
{
    crate::model::lemma_has_value(window_at(cells, i, wide));
}

/// Whether a window holds one cell and needs one value. Rolling over such a
/// window gives the series itself.
pub open spec fn window_of_one(window_size: u32, min_periods: u32) -> bool {
    window_size == 1 && min_periods == 1
}

/// What a rolling sum, least or greatest value gives.
///
/// `TypeMismatch` unless the series holds integers or floats. A window of
/// one cell that needs one value gives the series itself, however long it
/// is. Else `OutOfRange` if the window does not fit; the values of integers
/// are exact, or
/// `OutOfRange` for a sum of integers of which the positive or the negative
/// part does not add up within 64 bits; the values of floats are those that
/// the engine computes, null where a window yields nothing.
pub open spec fn gives_rolling(
    r: Result<ExSeries, ExplorerError>,
    kind: Rolling,
    data: crate::model::SeriesView,
    window_size: u32,
    ignore_null: bool,
    min_periods: u32,
) -> bool {
    match data.dtype {
        Some(Dtype::Int64) | Some(Dtype::Float64) => if window_of_one(window_size, min_periods) {
            gives(r, data.dtype, data.cells) && r.unwrap()@.name == data.name
        } else if !window_fits(data.cells.len(), window_size, min_periods) {
            fails(r, ExplorerError::OutOfRange)
        } else if data.dtype == Some(Dtype::Float64) {
            gives(
                r,
                Some(Dtype::Float64),
                float_rolling_cells(
                    kind,
                    data.cells,
                    handed_window(window_size, data.cells.len()) as nat,
                    ignore_null,
                    handed_periods(min_periods, window_size, data.cells.len()) as nat,
                ),
            ) && is_float_rolling(
                r.unwrap()@.cells,
                data.cells,
                window_size as nat,
                ignore_null,
                min_periods as nat,
            )
        } else if kind is Sum && !sums_fit(data.cells) {
            fails(r, ExplorerError::OutOfRange)
        } else {
            gives(
                r,
                Some(Dtype::Int64),
                rolling_cells(
                    kind,
                    data.cells,
                    window_size as nat,
                    ignore_null,
                    min_periods as nat,
                ),
            )
        },
        _ => fails(r, ExplorerError::TypeMismatch),
    }
}

/// Whether a window can be weighted by `n_weights` weights: it is not empty
/// and has one weight for each of its cells.
pub open spec fn weights_fit(window_size: u32, n_weights: usize) -> bool {
    0 < window_size && n_weights == window_size
}

/// Checks the number of weights of a window: `ShapeMismatch` unless the
/// window is not empty and has one weight for each of its cells.
pub fn check_weights(window_size: u32, n_weights: usize) -> (r: Result<(), ExplorerError>)
    ensures
        weights_fit(window_size, n_weights) ==> r is Ok,
        !weights_fit(window_size, n_weights) ==> r == Err::<(), ExplorerError>(
            ExplorerError::ShapeMismatch,
        ),
{
    if window_size == 0 || n_weights != window_size as usize {
        Err(ExplorerError::ShapeMismatch)
    } else {
        Ok(())
    }
}

/// Whether the window and the series go together.
fn check_window(data: &ExSeries, window_size: u32, min_periods: u32) -> (r: bool)
    ensures
        r == window_fits(data@.cells.len(), window_size, min_periods),
{
    window_size > 0 && min_periods <= window_size && series_len(&data.series) <= u32::MAX as usize
}

/// The series rolled over by the engine, or itself for a window of one
/// cell.
fn roll(
    kind: Rolling,
    data: &ExSeries,
    window_size: u32,
    ignore_null: bool,
    min_periods: u32,
) -> (r: Result<ExSeries, ExplorerError>)
    ensures
        gives_rolling(r, kind, data@, window_size, ignore_null, min_periods),
{
    let dtype = match series_dtype_of(&data.series) {
        Some(Dtype::Int64) => Dtype::Int64,
        Some(Dtype::Float64) => Dtype::Float64,
        _ => {
            return Err(ExplorerError::TypeMismatch);
        },
    };
    if window_size == 1 && min_periods == 1 {
        return Ok(ExSeries::new(data.series.clone()));
    }
    if !check_window(data, window_size, min_periods) {
        return Err(ExplorerError::OutOfRange);
    }
    let (size, needed) = hand(data, window_size, min_periods);
    proof {
        lemma_handed(data@.cells, window_size, ignore_null, min_periods);
    }
    let rolled = match kind {
        Rolling::Sum => {
            if dtype == Dtype::Int64 {
                let values = read_cells(&data.series);
                if !sums_fit_in(&values, Ghost(data@.cells)) {
                    return Err(ExplorerError::OutOfRange);
                }
            }
            series_rolling_sum(&data.series, size, ignore_null, needed)
        },
        Rolling::Min => series_rolling_min(&data.series, size, ignore_null, needed),
        Rolling::Max => series_rolling_max(&data.series, size, ignore_null, needed),
    };
    match rolled {
        Ok(out) => {
            proof {
                if dtype == Dtype::Int64 {
                    assert(series_cells(out) =~= rolling_cells(
                        kind,
                        data@.cells,
                        window_size as nat,
                        ignore_null,
                        min_periods as nat,
                    ));
                }
            }
            Ok(ExSeries::new(out))
        },
        Err(e) => Err(ExplorerError::Polars(error_message(&e))),
    }
}

/// The window and the number of values that it needs, as the engine is
/// asked for them.
fn hand(data: &ExSeries, window_size: u32, min_periods: u32) -> (r: (u32, u32))
    requires
        window_fits(data@.cells.len(), window_size, min_periods),
    ensures
        r.0 == handed_window(window_size, data@.cells.len()),
        r.1 == handed_periods(min_periods, window_size, data@.cells.len()),
        window_fits(data@.cells.len(), r.0, r.1),
        min_periods > 0 ==> r.1 > 0,
{
    let n = series_len(&data.series);
    let size = if window_size as usize > n {
        (n + 1) as u32
    } else {
        window_size
    };
    let needed = if min_periods > size {
        size
    } else {
        min_periods
    };
    (size, needed)
}

/// What the engine is asked for yields what was asked of the library: the
/// same cells decide at every position, and decide the same.
proof fn lemma_handed(cells: Seq<Cell>, window_size: u32, ignore_null: bool, min_periods: u32)
    requires
        window_fits(cells.len(), window_size, min_periods),
    ensures
        forall|i: int|
            0 <= i < cells.len() ==> window_at(cells, i, window_size as nat) == #[trigger] window_at(
                cells,
                i,
                handed_window(window_size, cells.len()) as nat,
            ),
        forall|i: int|
            0 <= i < cells.len() ==> window_defined(
                cells,
                i,
                window_size as nat,
                ignore_null,
                min_periods as nat,
            ) == #[trigger] window_defined(
                cells,
                i,
                handed_window(window_size, cells.len()) as nat,
                ignore_null,
                handed_periods(min_periods, window_size, cells.len()) as nat,
            ),
{
    if window_size > cells.len() {
        assert forall|i: int| 0 <= i < cells.len() implies window_at(
            cells,
            i,
            window_size as nat,
        ) == #[trigger] window_at(cells, i, handed_window(window_size, cells.len()) as nat) by {
            lemma_wide_window(cells, window_size as nat, ignore_null, min_periods as nat, i);
        }
        assert forall|i: int| 0 <= i < cells.len() implies window_defined(
            cells,
            i,
            window_size as nat,
            ignore_null,
            min_periods as nat,
        ) == #[trigger] window_defined(
            cells,
            i,
            handed_window(window_size, cells.len()) as nat,
            ignore_null,
            handed_periods(min_periods, window_size, cells.len()) as nat,
        ) by {
            lemma_wide_window(cells, window_size as nat, ignore_null, min_periods as nat, i);
        }
    }
}

/// The sum of each trailing window of `window_size` cells, all weighted
/// alike, in a series of the dtype of `data`; see `gives_rolling`.
pub fn s_rolling_sum(
    data: &ExSeries,
    window_size: u32,
    ignore_null: bool,
    min_periods: Option<u32>,
) -> (r: Result<ExSeries, ExplorerError>)
    ensures
        gives_rolling(
            r,
            Rolling::Sum,
            data@,
            window_size,
            ignore_null,
            min_periods_of(window_size, min_periods),
        ),
        r is Ok && window_of_one(window_size, min_periods_of(window_size, min_periods))
            ==> r.unwrap()@ == data@,
{
    roll(Rolling::Sum, data, window_size, ignore_null, effective_min_periods(window_size, min_periods))
}

/// The least value of each trailing window of `window_size` cells, in a
/// series of the dtype of `data`; see `gives_rolling`.
pub fn s_rolling_min(
    data: &ExSeries,
    window_size: u32,
    ignore_null: bool,
    min_periods: Option<u32>,
) -> (r: Result<ExSeries, ExplorerError>)
    ensures
        gives_rolling(
            r,
            Rolling::Min,
            data@,
            window_size,
            ignore_null,
            min_periods_of(window_size, min_periods),
        ),
        r is Ok && window_of_one(window_size, min_periods_of(window_size, min_periods))
            ==> r.unwrap()@ == data@,
{
    roll(Rolling::Min, data, window_size, ignore_null, effective_min_periods(window_size, min_periods))
}

/// The greatest value of each trailing window of `window_size` cells, in a
/// series of the dtype of `data`; see `gives_rolling`.
pub fn s_rolling_max(
    data: &ExSeries,
    window_size: u32,
    ignore_null: bool,
    min_periods: Option<u32>,
) -> (r: Result<ExSeries, ExplorerError>)
    ensures
        gives_rolling(
            r,
            Rolling::Max,
            data@,
            window_size,
            ignore_null,
            min_periods_of(window_size, min_periods),
        ),
        r is Ok && window_of_one(window_size, min_periods_of(window_size, min_periods))
            ==> r.unwrap()@ == data@,
{
    roll(Rolling::Max, data, window_size, ignore_null, effective_min_periods(window_size, min_periods))
}

/// The mean of each trailing window of `window_size` cells, all weighted
/// alike, as a Float64 series: the sum of the window divided by the number
/// of its values. A window of one cell that needs one value gives the
/// series itself, however long it is, its integers converted to floats and
/// null where it is null.
///
/// `TypeMismatch` unless `data` holds integers or floats. Else `OutOfRange`
/// if the window does not fit or needs no value at all.
pub fn s_rolling_mean(
    data: &ExSeries,
    window_size: u32,
    ignore_null: bool,
    min_periods: Option<u32>,
) -> (r: Result<ExSeries, ExplorerError>)
    ensures
        match data@.dtype {
            Some(Dtype::Int64) | Some(Dtype::Float64) => if window_of_one(
                window_size,
                min_periods_of(window_size, min_periods),
            ) {
                gives(
                    r,
                    Some(Dtype::Float64),
                    cast_cells(data@.dtype.unwrap(), Dtype::Float64, data@.cells),
                ) && r.unwrap()@.name == data@.name && forall|i: int|
                    0 <= i < data@.cells.len() ==> (#[trigger] r.unwrap()@.cells[i] is Null
                        <==> data@.cells[i] is Null)
            } else if min_periods_of(window_size, min_periods) == 0 || !window_fits(
                data@.cells.len(),
                window_size,
                min_periods_of(window_size, min_periods),
            ) {
                fails(r, ExplorerError::OutOfRange)
            } else {
                gives(
                    r,
                    Some(Dtype::Float64),
                    float_rolling_mean(
                        cast_cells(data@.dtype.unwrap(), Dtype::Float64, data@.cells),
                        handed_window(window_size, data@.cells.len()) as nat,
                        ignore_null,
                        handed_periods(
                            min_periods_of(window_size, min_periods),
                            window_size,
                            data@.cells.len(),
                        ) as nat,
                    ),
                ) && is_float_rolling(
                    r.unwrap()@.cells,
                    data@.cells,
                    window_size as nat,
                    ignore_null,
                    min_periods_of(window_size, min_periods) as nat,
                )
            },
            _ => fails(r, ExplorerError::TypeMismatch),
        },
        data@.dtype == Some(Dtype::Float64) && r is Ok && window_of_one(
            window_size,
            min_periods_of(window_size, min_periods),
        ) ==> r.unwrap()@ == data@,
{
    let min_periods = effective_min_periods(window_size, min_periods);
    match series_dtype_of(&data.series) {
        Some(Dtype::Int64) | Some(Dtype::Float64) => {},
        _ => {
            return Err(ExplorerError::TypeMismatch);
        },
    }
    // A window that yields a mean without a value would divide by zero.
    if !(window_size == 1 && min_periods == 1) && (min_periods == 0 || !check_window(
        data,
        window_size,
        min_periods,
    )) {
        return Err(ExplorerError::OutOfRange);
    }
    let floats = match cast_column(&data.series, Dtype::Float64) {
        Ok(floats) => floats,
        Err(e) => {
            return Err(ExplorerError::Polars(error_message(&e)));
        },
    };
    if window_size == 1 && min_periods == 1 {
        proof {
            assert(series_cells(floats) =~= cast_cells(
                data@.dtype.unwrap(),
                Dtype::Float64,
                data@.cells,
            ));
            if data@.dtype == Some(Dtype::Float64) {
                assert(series_cells(floats) =~= data@.cells);
            }
        }
        return Ok(ExSeries::new(floats));
    }
    let (size, needed) = hand(data, window_size, min_periods);
    proof {
        lemma_handed(data@.cells, window_size, ignore_null, min_periods);
        lemma_same_windows(
            data@.cells,
            series_cells(floats),
            size as nat,
            ignore_null,
            needed as nat,
        );
    }
    match series_rolling_mean(&floats, size, ignore_null, needed) {
        Ok(out) => Ok(ExSeries::new(out)),
        Err(e) => Err(ExplorerError::Polars(error_message(&e))),
    }
}

/// Two series with nulls at the same positions yield values at the same
/// positions.
proof fn lemma_same_windows(a: Seq<Cell>, b: Seq<Cell>, size: nat, ignore_null: bool, min_periods: nat)
    requires
        a.len() == b.len(),
        forall|i: int| 0 <= i < a.len() ==> (#[trigger] b[i] is Null <==> a[i] is Null),
    ensures
        forall|i: int|
            0 <= i < a.len() ==> window_defined(a, i, size, ignore_null, min_periods)
                == window_defined(b, i, size, ignore_null, min_periods),
{
    assert forall|i: int| 0 <= i < a.len() implies window_defined(
        a,
        i,
        size,
        ignore_null,
        min_periods,
    ) == window_defined(b, i, size, ignore_null, min_periods) by {
        lemma_same_nulls(window_at(a, i, size), window_at(b, i, size));
    }
}

} // verus!
