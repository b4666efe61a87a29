//! Reductions of a series to one value. Nulls are ignored; a series without
//! a value reduces to null.

use vstd::prelude::*;
use polars::prelude::Series;
use crate::dtype::Dtype;
use crate::engine::{error_message, series_cells, series_drop_nulls, series_dtype};
use crate::engine::series_is_compact;
use crate::engine::{series_dtype_of, series_get, series_len, series_max, series_mean};
use crate::engine::{series_min, series_std, series_sum, series_take, series_var};
use crate::error::ExplorerError;
use crate::model::{cast_cells, cell_number, drop_null_cells, float_mean, gather_cells};
use crate::model::{float_sum_cells, has_nan, has_value, is_float_extreme};
use crate::model::{lemma_null_count_contains, lemma_same_nulls};
use crate::order::{is_sorted_copy, is_sorting};
use crate::sort::sort_positions;
use crate::model::{is_greatest, is_least, is_nan_bits, lemma_drop_nulls, sum_cells};
use crate::model::value_count;
use crate::scalar::{Cell, Scalar};
use crate::series::{cast_column, compact, fails, read_cells, ExSeries};

verus! {

/// `r` is the float of the given bits if the series has a value, and null
/// if it has none.
pub open spec fn gives_float(r: Result<Scalar, ExplorerError>, cells: Seq<Cell>, bits: u64) -> bool {
    r == Ok::<Scalar, ExplorerError>(
        if has_value(cells) {
            Scalar::Float(bits)
        } else {
            Scalar::Null
        },
    )
}

/// The cells of a series of numbers as floats.
pub open spec fn as_float_cells(data: crate::model::SeriesView) -> Seq<Cell> {
    cast_cells(data.dtype.unwrap(), Dtype::Float64, data.cells)
}

/// The sum of the integers and booleans read from a column, and whether any
/// of them is not null.
fn sum_numbers(values: &Vec<Scalar>, Ghost(cells): Ghost<Seq<Cell>>) -> (r: (i128, bool))
    requires
        values@.len() == cells.len(),
        forall|i: int| 0 <= i < cells.len() ==> (#[trigger] values@[i])@ == cells[i],
    ensures
        r.0 == sum_cells(cells),
        r.1 == has_value(cells),
{
    let mut total: i128 = 0;
    let mut any = false;
    let mut i: usize = 0;
    while i < values.len()
        invariant
            i <= values@.len(),
            values@.len() == cells.len(),
            forall|j: int| 0 <= j < cells.len() ==> (#[trigger] values@[j])@ == cells[j],
            total == sum_cells(cells.take(i as int)),
            -(i * 0x8000_0000_0000_0000) <= total <= i * 0x8000_0000_0000_0000,
            any == has_value(cells.take(i as int)),
        decreases values@.len() - i,
    {
        proof {
            let next = cells.take(i + 1);
            assert(next.drop_last() =~= cells.take(i as int));
            assert(next.last() == cells[i as int]);
            assert(values@[i as int]@ == cells[i as int]);
            if has_value(cells.take(i as int)) {
                let j = choose|j: int|
                    0 <= j < i && !(#[trigger] cells.take(i as int)[j] is Null);
                assert(!(next[j] is Null));
            }
            if has_value(next) && cells[i as int] is Null {
                let j = choose|j: int| 0 <= j < i + 1 && !(#[trigger] next[j] is Null);
                assert(!(cells.take(i as int)[j] is Null));
            }
            if !(cells[i as int] is Null) {
                assert(!(next[i as int] is Null));
            }
        }
        match &values[i] {
            Scalar::Integer(v) => {
                total = total + (*v as i128);
                any = true;
            },
            Scalar::Boolean(b) => {
                if *b {
                    total = total + 1;
                }
                any = true;
            },
            Scalar::Null => {},
            _ => {
                any = true;
            },
        }
        i += 1;
    }
    proof {
        assert(cells.take(i as int) =~= cells);
    }
    (total, any)
}

/// The one cell of a column that a reduction of the engine gave.
fn only_cell(summary: &Series) -> (r: Scalar)
    requires
        series_dtype(*summary) is Some,
        series_cells(*summary).len() == 1,
    ensures
        r@ == series_cells(*summary)[0],
{
    series_get(summary, 0)
}

/// The sum of the values: of integers as an integer, of booleans as the
/// number of `true`, of floats as the float that comes of adding them one
/// after the other to zero.
///
/// `TypeMismatch` for any other dtype; `OutOfRange` if the sum of integers
/// does not fit in 64 bits.
pub fn s_sum(data: &ExSeries) -> (r: Result<Scalar, ExplorerError>)
    ensures
        match data@.dtype {
            Some(Dtype::Boolean) | Some(Dtype::Int64) => if !has_value(data@.cells) {
                r == Ok::<Scalar, ExplorerError>(Scalar::Null)
            } else if i64::MIN <= sum_cells(data@.cells) <= i64::MAX {
                r == Ok::<Scalar, ExplorerError>(Scalar::Integer(sum_cells(data@.cells) as i64))
            } else {
                fails(r, ExplorerError::OutOfRange)
            },
            Some(Dtype::Float64) => gives_float(r, data@.cells, float_sum_cells(data@.cells)),
            _ => fails(r, ExplorerError::TypeMismatch),
        },
{
    match series_dtype_of(&data.series) {
        Some(Dtype::Boolean) | Some(Dtype::Int64) => {
            let values = read_cells(&data.series);
            let (total, any) = sum_numbers(&values, Ghost(data@.cells));
            if !any {
                Ok(Scalar::Null)
            } else if total < i64::MIN as i128 || total > i64::MAX as i128 {
                Err(ExplorerError::OutOfRange)
            } else {
                Ok(Scalar::Integer(total as i64))
            }
        },
        Some(Dtype::Float64) => Ok(only_cell(&series_sum(&compact(&data.series)))),
        _ => Err(ExplorerError::TypeMismatch),
    }
}

/// The least or the greatest of the booleans read from a column, as 1 or 0.
fn extreme_bool(values: &Vec<Scalar>, least: bool, Ghost(cells): Ghost<Seq<Cell>>) -> (r: Scalar)
    requires
        values@.len() == cells.len(),
        forall|i: int| 0 <= i < cells.len() ==> (#[trigger] values@[i])@ == cells[i],
        forall|i: int| 0 <= i < cells.len() ==> #[trigger] cells[i] is Null || cells[i] is Bool,
    ensures
        !has_value(cells) ==> r == Scalar::Null,
        has_value(cells) ==> (r matches Scalar::Integer(m) && if least {
            is_least(cells, m as int)
        } else {
            is_greatest(cells, m as int)
        }),
{
    let mut seen_true = false;
    let mut seen_false = false;
    let ghost mut at_true: int = 0;
    let ghost mut at_false: int = 0;
    let mut i: usize = 0;
    while i < values.len()
        invariant
            i <= values@.len(),
            values@.len() == cells.len(),
            forall|j: int| 0 <= j < cells.len() ==> (#[trigger] values@[j])@ == cells[j],
            forall|j: int| 0 <= j < cells.len() ==> #[trigger] cells[j] is Null || cells[j] is Bool,
            seen_true ==> 0 <= at_true < i && cells[at_true] == Cell::Bool(true),
            seen_false ==> 0 <= at_false < i && cells[at_false] == Cell::Bool(false),
            !seen_true ==> forall|j: int| 0 <= j < i ==> #[trigger] cells[j] != Cell::Bool(true),
            !seen_false ==> forall|j: int| 0 <= j < i ==> #[trigger] cells[j] != Cell::Bool(false),
        decreases values@.len() - i,
    {
        assert(values@[i as int]@ == cells[i as int]);
        match &values[i] {
            Scalar::Boolean(b) => {
                if *b {
                    seen_true = true;
                    proof {
                        at_true = i as int;
                    }
                } else {
                    seen_false = true;
                    proof {
                        at_false = i as int;
                    }
                }
            },
            _ => {},
        }
        i += 1;
    }
    if !seen_true && !seen_false {
        proof {
            if has_value(cells) {
                let j = choose|j: int| 0 <= j < cells.len() && !(#[trigger] cells[j] is Null);
                assert(cells[j] is Bool);
                assert(cells[j] != Cell::Bool(true));
                assert(cells[j] != Cell::Bool(false));
            }
        }
        return Scalar::Null;
    }
    proof {
        if seen_true {
            assert(!(cells[at_true] is Null));
        }
        if seen_false {
            assert(!(cells[at_false] is Null));
        }
    }
    if least {
        if seen_false {
            Scalar::Integer(0)
        } else {
            assert forall|j: int| 0 <= j < cells.len() && !(#[trigger] cells[j] is Null) implies 1
                <= cell_number(cells[j]) by {
                assert(cells[j] is Bool);
                assert(cells[j] != Cell::Bool(false));
            }
            Scalar::Integer(1)
        }
    } else {
        if seen_true {
            Scalar::Integer(1)
        } else {
            assert forall|j: int| 0 <= j < cells.len() && !(#[trigger] cells[j] is Null) implies 0
                >= cell_number(cells[j]) by {
                assert(cells[j] is Bool);
                assert(cells[j] != Cell::Bool(true));
            }
            Scalar::Integer(0)
        }
    }
}

/// What `s_min` and `s_max` give for a series of the given dtype and cells.
pub open spec fn gives_extreme(
    r: Result<Scalar, ExplorerError>,
    dtype: Option<Dtype>,
    cells: Seq<Cell>,
    least: bool,
) -> bool {
    match dtype {
        Some(Dtype::Utf8) | None => fails(r, ExplorerError::TypeMismatch),
        Some(Dtype::Float64) => if !has_value(cells) {
            r == Ok::<Scalar, ExplorerError>(Scalar::Null)
        } else {
            (r matches Ok(Scalar::Float(m)) && is_float_extreme(m, cells, least))
        },
        Some(_) => if !has_value(cells) {
            r == Ok::<Scalar, ExplorerError>(Scalar::Null)
        } else {
            (r matches Ok(Scalar::Integer(m)) && if least {
                is_least(cells, m as int)
            } else {
                is_greatest(cells, m as int)
            })
        },
    }
}

/// The least value: of integers and dates as an integer, of booleans as 1 or
/// 0, of floats a float of the series than which none is less. Of floats
/// with a NaN among them the result is a float of which no more is said.
///
/// `TypeMismatch` for strings and for a column of none of the six dtypes.
pub fn s_min(data: &ExSeries) -> (r: Result<Scalar, ExplorerError>)
    ensures
        gives_extreme(r, data@.dtype, data@.cells, true),
{
    match series_dtype_of(&data.series) {
        Some(Dtype::Utf8) | None => Err(ExplorerError::TypeMismatch),
        Some(Dtype::Boolean) => {
            // The engine's minimum over booleans starts from 0 and so never
            // exceeds it; the booleans are read here instead.
            let values = read_cells(&data.series);
            Ok(extreme_bool(&values, true, Ghost(data@.cells)))
        },
        Some(_) => Ok(only_cell(&series_min(&data.series))),
    }
}

/// The greatest value: of integers and dates as an integer, of booleans as 1
/// or 0, of floats a float of the series than which none is greater. Of
/// floats with a NaN among them the result is a float of which no more is
/// said.
///
/// `TypeMismatch` for strings and for a column of none of the six dtypes.
pub fn s_max(data: &ExSeries) -> (r: Result<Scalar, ExplorerError>)
    ensures
        gives_extreme(r, data@.dtype, data@.cells, false),
{
    match series_dtype_of(&data.series) {
        Some(Dtype::Utf8) | None => Err(ExplorerError::TypeMismatch),
        Some(Dtype::Boolean) => {
            let values = read_cells(&data.series);
            Ok(extreme_bool(&values, false, Ghost(data@.cells)))
        },
        Some(_) => Ok(only_cell(&series_max(&data.series))),
    }
}

/// The column as a compact column of floats, with nulls where it had them.
fn as_floats(series: &Series) -> (r: Result<Series, ExplorerError>)
    requires
        series_dtype(*series) == Some(Dtype::Boolean) || series_dtype(*series) == Some(
            Dtype::Int64,
        ) || series_dtype(*series) == Some(Dtype::Float64),
    ensures
        r is Ok,
        series_is_compact(r.unwrap()),
        series_dtype(r.unwrap()) == Some(Dtype::Float64),
        series_cells(r.unwrap()) == cast_cells(
            series_dtype(*series).unwrap(),
            Dtype::Float64,
            series_cells(*series),
        ),
        has_value(series_cells(r.unwrap())) <==> has_value(series_cells(*series)),
        value_count(series_cells(r.unwrap())) == value_count(series_cells(*series)),
{
    match cast_column(series, Dtype::Float64) {
        Ok(floats) => {
            let stored = compact(&floats);
            proof {
                let a = series_cells(*series);
                let b = series_cells(floats);
                if has_value(a) {
                    let i = choose|i: int| 0 <= i < a.len() && !(#[trigger] a[i] is Null);
                    assert(!(b[i] is Null));
                }
                if has_value(b) {
                    let i = choose|i: int| 0 <= i < b.len() && !(#[trigger] b[i] is Null);
                    assert(!(a[i] is Null));
                }
                lemma_same_nulls(a, b);
            }
            Ok(stored)
        },
        Err(e) => Err(ExplorerError::Polars(error_message(&e))),
    }
}

/// Whether one of the floats read from a column is not a number.
pub(crate) fn holds_nan(values: &Vec<Scalar>, Ghost(cells): Ghost<Seq<Cell>>) -> (r: bool)
    requires
        values@.len() == cells.len(),
        forall|i: int| 0 <= i < cells.len() ==> (#[trigger] values@[i])@ == cells[i],
    ensures
        r == has_nan(cells),
{
    let mut i: usize = 0;
    while i < values.len()
        invariant
            i <= values@.len(),
            values@.len() == cells.len(),
            forall|j: int| 0 <= j < cells.len() ==> (#[trigger] values@[j])@ == cells[j],
            forall|j: int|
                0 <= j < i ==> !(#[trigger] cells[j] matches Cell::Float(bits) && is_nan_bits(bits)),
        decreases values@.len() - i,
    {
        assert(values@[i as int]@ == cells[i as int]);
        match &values[i] {
            Scalar::Float(bits) => {
                if (*bits & 0x7FFF_FFFF_FFFF_FFFF) > 0x7FF0_0000_0000_0000 {
                    assert(cells[i as int] matches Cell::Float(b) && is_nan_bits(b));
                    return true;
                }
            },
            _ => {},
        }
        i += 1;
    }
    false
}

/// The mean of the values, as a float: the values are converted to floats
/// and added one after the other to zero, and the sum is divided by their
/// number. Booleans count as 1 and 0.
///
/// `TypeMismatch` unless the series holds booleans, integers or floats.
pub fn s_mean(data: &ExSeries) -> (r: Result<Scalar, ExplorerError>)
    ensures
        match data@.dtype {
            Some(Dtype::Boolean) | Some(Dtype::Int64) | Some(Dtype::Float64) => gives_float(
                r,
                data@.cells,
                float_mean(float_sum_cells(as_float_cells(data@)), value_count(data@.cells)),
            ),
            _ => fails(r, ExplorerError::TypeMismatch),
        },
{
    match series_dtype_of(&data.series) {
        Some(Dtype::Boolean) | Some(Dtype::Int64) | Some(Dtype::Float64) => {
            let floats = as_floats(&data.series)?;
            Ok(only_cell(&series_mean(&floats)))
        },
        _ => Err(ExplorerError::TypeMismatch),
    }
}

/// The median of sorted floats: null if there is none, the float in their
/// middle if their number is odd, and else the mean of the two in their
/// middle.
pub open spec fn median_of(sorted: Seq<Cell>) -> Cell {
    let n = sorted.len() as int;
    if n == 0 {
        Cell::Null
    } else if n % 2 == 1 {
        sorted[n / 2]
    } else {
        let middle = sorted.subrange(n / 2 - 1, n / 2 + 1);
        Cell::Float(float_mean(float_sum_cells(middle), value_count(middle)))
    }
}

/// What the median of a series is: its values are converted to floats and
/// sorted, and the median is that of the sorted floats.
///
/// `TypeMismatch` unless the series holds integers or floats; `OutOfRange`
/// if a value is a NaN, which has no place in the order, and for more than
/// `u32::MAX` values.
pub open spec fn gives_median(r: Result<Scalar, ExplorerError>, data: crate::model::SeriesView) -> bool {
    match data.dtype {
        Some(Dtype::Int64) | Some(Dtype::Float64) => if has_nan(as_float_cells(data))
            || drop_null_cells(as_float_cells(data)).len() > u32::MAX {
            fails(r, ExplorerError::OutOfRange)
        } else {
            r is Ok && exists|sorted: Seq<Cell>|
                is_sorted_copy(sorted, drop_null_cells(as_float_cells(data)), false)
                    && r.unwrap()@ == median_of(sorted)
        },
        _ => fails(r, ExplorerError::TypeMismatch),
    }
}

/// The median of the values, as a float; see `gives_median`.
pub fn s_median(data: &ExSeries) -> (r: Result<Scalar, ExplorerError>)
    ensures
        gives_median(r, data@),
{
    match series_dtype_of(&data.series) {
        Some(Dtype::Int64) | Some(Dtype::Float64) => {},
        _ => {
            return Err(ExplorerError::TypeMismatch);
        },
    }
    let floats = as_floats(&data.series)?;
    let values = series_drop_nulls(&floats);
    let read = read_cells(&values);
    let ghost cells = series_cells(values);
    proof {
        lemma_drop_nulls(series_cells(floats));
        lemma_nan_among_values(series_cells(floats));
        lemma_null_count_contains(cells);
    }
    if holds_nan(&read, Ghost(cells)) || read.len() > u32::MAX as usize {
        return Err(ExplorerError::OutOfRange);
    }
    // The dtype vouches for the cells: each is a float.
    let _ = series_dtype_of(&values);
    let order = sort_positions(&read, false, Ghost(Dtype::Float64), Ghost(cells));
    let ghost sorted = gather_cells(cells, order@);
    let n = read.len();
    assert(is_sorting(order@, cells, false) && sorted == gather_cells(cells, order@));
    assert(is_sorted_copy(sorted, cells, false));
    if n == 0 {
        assert(median_of(sorted) == Cell::Null);
        return Ok(Scalar::Null);
    }
    if n % 2 == 1 {
        let at = order[n / 2] as usize;
        assert(read@[at as int]@ == cells[at as int]);
        assert(cells[at as int] != Cell::Null);
        assert(crate::model::cell_fits(Dtype::Float64, cells[at as int]));
        assert(median_of(sorted) == cells[at as int]);
        return match &read[at] {
            Scalar::Float(bits) => Ok(Scalar::Float(*bits)),
            _ => Ok(Scalar::Null),
        };
    }
    let mut pair: Vec<u32> = Vec::new();
    pair.push(order[n / 2 - 1]);
    pair.push(order[n / 2]);
    let middle = compact(&series_take(&values, &pair));
    proof {
        assert(series_cells(middle) =~= sorted.subrange(n / 2 - 1, n / 2 + 1));
        assert(series_cells(middle)[0] == cells[order@[n / 2 - 1] as int]);
        assert(cells[order@[n / 2 - 1] as int] != Cell::Null);
        assert(!(series_cells(middle)[0] is Null));
    }
    let mean = only_cell(&series_mean(&middle));
    assert(mean@ == median_of(sorted));
    Ok(mean)
}

/// A series has a NaN exactly if its values without the nulls have one.
proof fn lemma_nan_among_values(cells: Seq<Cell>)
    ensures
        has_nan(drop_null_cells(cells)) <==> has_nan(cells),
    decreases cells.len(),
{
    if cells.len() > 0 {
        let init = cells.drop_last();
        lemma_nan_among_values(init);
        let kept = drop_null_cells(init);
        let last = cells.last();
        if has_nan(init) {
            let i = choose|i: int|
                0 <= i < init.len() && (#[trigger] init[i] matches Cell::Float(bits) && is_nan_bits(
                    bits,
                ));
            assert(cells[i] matches Cell::Float(bits) && is_nan_bits(bits));
        }
        if has_nan(kept) {
            let i = choose|i: int|
                0 <= i < kept.len() && (#[trigger] kept[i] matches Cell::Float(bits) && is_nan_bits(
                    bits,
                ));
            if !(last is Null) {
                assert(kept.push(last)[i] == kept[i]);
                assert(drop_null_cells(cells)[i] matches Cell::Float(bits) && is_nan_bits(bits));
            }
        }
        if last matches Cell::Float(bits) && is_nan_bits(bits) {
            assert(cells[cells.len() - 1] == last);
            assert(drop_null_cells(cells)[kept.len() as int] == last);
        }
        if has_nan(cells) {
            let i = choose|i: int|
                0 <= i < cells.len() && (#[trigger] cells[i] matches Cell::Float(bits)
                    && is_nan_bits(bits));
            if i < init.len() {
                assert(init[i] == cells[i]);
            }
        }
        if has_nan(drop_null_cells(cells)) {
            let all = drop_null_cells(cells);
            let i = choose|i: int|
                0 <= i < all.len() && (#[trigger] all[i] matches Cell::Float(bits) && is_nan_bits(
                    bits,
                ));
            if !(last is Null) && i < kept.len() {
                assert(kept[i] == all[i]);
            }
        }
    }
}

/// `r` is a float if the series has a value, and null if it has none.
pub open spec fn gives_some_float(r: Result<Scalar, ExplorerError>, cells: Seq<Cell>) -> bool {
    r is Ok && if has_value(cells) {
        r.unwrap()@ is Float
    } else {
        r.unwrap()@ is Null
    }
}

/// The variance of the values, as a float: of the values converted to
/// floats, the sum of the squares of their distances from the mean, divided
/// by one less than their number. The last bits of the float are a matter
/// of the machine.
///
/// `TypeMismatch` unless the series holds integers or floats.
pub fn s_var(data: &ExSeries) -> (r: Result<Scalar, ExplorerError>)
    ensures
        match data@.dtype {
            Some(Dtype::Int64) | Some(Dtype::Float64) => gives_some_float(r, data@.cells),
            _ => fails(r, ExplorerError::TypeMismatch),
        },
{
    match series_dtype_of(&data.series) {
        Some(Dtype::Int64) | Some(Dtype::Float64) => {
            let floats = as_floats(&data.series)?;
            Ok(only_cell(&series_var(&floats)))
        },
        _ => Err(ExplorerError::TypeMismatch),
    }
}

/// The standard deviation of the values, as a float: the square root of the
/// variance. The last bits of the float are a matter of the machine.
///
/// `TypeMismatch` unless the series holds integers or floats.
pub fn s_std(data: &ExSeries) -> (r: Result<Scalar, ExplorerError>)
    ensures
        match data@.dtype {
            Some(Dtype::Int64) | Some(Dtype::Float64) => gives_some_float(r, data@.cells),
            _ => fails(r, ExplorerError::TypeMismatch),
        },
{
    match series_dtype_of(&data.series) {
        Some(Dtype::Int64) | Some(Dtype::Float64) => {
            let floats = as_floats(&data.series)?;
            Ok(only_cell(&series_std(&floats)))
        },
        _ => Err(ExplorerError::TypeMismatch),
    }
}

/// Whether the bits are those of a float between 0 and 1, both included.
/// Floats that are not negative are ordered as their bits are, and 1 has the
/// bits `0x3FF0_0000_0000_0000`; the negative 0 is the only other float in
/// the range.
pub open spec fn is_quantile(bits: u64) -> bool {
    bits <= 0x3FF0_0000_0000_0000 || bits == 0x8000_0000_0000_0000
}

/// The non-null values of a series of which a quantile is asked, for the
/// engine to take the quantile of; `quantile` holds the bits of the float.
///
/// `OutOfRange` unless the quantile lies between 0 and 1; else
/// `TypeMismatch` unless the series holds integers or floats.
pub fn quantile_input(data: &ExSeries, quantile: u64) -> (r: Result<ExSeries, ExplorerError>)
    ensures
        !is_quantile(quantile) ==> fails(r, ExplorerError::OutOfRange),
        is_quantile(quantile) && data@.dtype != Some(Dtype::Int64) && data@.dtype != Some(
            Dtype::Float64,
        ) ==> fails(r, ExplorerError::TypeMismatch),
        is_quantile(quantile) && (data@.dtype == Some(Dtype::Int64) || data@.dtype == Some(
            Dtype::Float64,
        )) ==> r is Ok && r.unwrap()@.name == data@.name && r.unwrap()@.dtype == data@.dtype
            && r.unwrap()@.cells == crate::model::drop_null_cells(data@.cells),
{
    if !(quantile <= 0x3FF0_0000_0000_0000 || quantile == 0x8000_0000_0000_0000) {
        return Err(ExplorerError::OutOfRange);
    }
    match series_dtype_of(&data.series) {
        Some(Dtype::Int64) | Some(Dtype::Float64) => {},
        _ => {
            return Err(ExplorerError::TypeMismatch);
        },
    }
    Ok(ExSeries::new(series_drop_nulls(&data.series)))
}

/// What is to be done for a quantile of a series.
#[derive(Clone, Debug)]
pub enum QuantilePlan {
    /// The series has no value: the quantile is this empty series.
    Empty(ExSeries),
    /// The quantile 1 is asked for: it is the one cell of this series, the
    /// greatest value.
    Greatest(ExSeries),
    /// The engine is to be asked for the quantile of these values.
    Ask(ExSeries),
}

/// The bits of the float 1.
pub const ONE: u64 = 0x3FF0_0000_0000_0000;

/// What a quantile of a series needs: nothing if the series has no value,
/// the greatest value for the quantile 1, and else the values without the
/// nulls for the engine to take the quantile of.
///
/// `OutOfRange` unless the quantile lies between 0 and 1; else
/// `TypeMismatch` unless the series holds integers or floats.
pub open spec fn gives_quantile_plan(
    r: Result<QuantilePlan, ExplorerError>,
    data: crate::model::SeriesView,
    quantile: u64,
) -> bool {
    if !is_quantile(quantile) {
        fails(r, ExplorerError::OutOfRange)
    } else if data.dtype != Some(Dtype::Int64) && data.dtype != Some(Dtype::Float64) {
        fails(r, ExplorerError::TypeMismatch)
    } else {
        let values = drop_null_cells(data.cells);
        r is Ok && match r.unwrap() {
            QuantilePlan::Empty(none) => values.len() == 0 && none@.name == data.name && none@.dtype
                == data.dtype && none@.cells == values,
            QuantilePlan::Greatest(one) => values.len() > 0 && quantile == ONE && one@.dtype
                == data.dtype && crate::model::is_extreme_summary(
                one@.cells,
                values,
                data.dtype.unwrap(),
                false,
            ),
            QuantilePlan::Ask(all) => values.len() > 0 && quantile != ONE && all@.name == data.name
                && all@.dtype == data.dtype && all@.cells == values,
        }
    }
}

/// What is to be done for a quantile of the series; see
/// `gives_quantile_plan`. `quantile` holds the bits of the float.
pub fn quantile_plan(data: &ExSeries, quantile: u64) -> (r: Result<QuantilePlan, ExplorerError>)
    ensures
        gives_quantile_plan(r, data@, quantile),
{
    let values = quantile_input(data, quantile)?;
    if series_len(&values.series) == 0 {
        return Ok(QuantilePlan::Empty(values));
    }
    if quantile == ONE {
        return Ok(QuantilePlan::Greatest(ExSeries::new(series_max(&values.series))));
    }
    Ok(QuantilePlan::Ask(values))
}

} // verus!
