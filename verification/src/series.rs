//! The series handle, its constructors and the operations that read it.

use vstd::prelude::*;
use polars::prelude::{PolarsError, Series};
use crate::dtype::{dtype_text, Dtype};
use crate::engine::{series_append, series_cast, series_cells, series_chunks, series_debug};
use crate::engine::{series_head, series_rechunk};
use crate::engine::{series_dtype, series_n_chunks};
use crate::engine::{series_dtype_of, series_dtype_text, series_get, series_is_compact};
use crate::engine::{series_len, series_name, series_name_of, series_null_count, series_of_bools};
use crate::engine::{series_of_ints, series_of_strings, series_of_strs, series_rename};
use crate::engine::{series_take, series_text};
use crate::error::ExplorerError;
use crate::model::{bool_cells, cast_cells, castable, int_cells, null_count, str_cells};
use crate::model::{cell_prints, is_shown, prints, SeriesView};
use crate::model::{FIRST_DAY, FIRST_MOMENT, LAST_DAY, LAST_MOMENT, SHOWN_ROWS};
use crate::scalar::{Cell, Scalar};

verus! {

/// A handle on one column of the engine.
#[derive(Clone, Debug)]
pub struct ExSeries {
    /// The engine's column.
    pub series: Series,
}

impl View for ExSeries {
    type V = SeriesView;

    open spec fn view(&self) -> SeriesView {
        SeriesView {
            name: series_name(self.series),
            dtype: series_dtype(self.series),
            cells: series_cells(self.series),
        }
    }
}

/// `r` is a series of the given dtype and cells.
pub open spec fn gives(r: Result<ExSeries, ExplorerError>, dtype: Option<Dtype>, cells: Seq<Cell>) -> bool {
    r is Ok && r.unwrap()@.dtype == dtype && r.unwrap()@.cells == cells
}

/// `r` is the given error.
pub open spec fn fails<T>(r: Result<T, ExplorerError>, e: ExplorerError) -> bool {
    r == Err::<T, ExplorerError>(e)
}

/// `r` is an error that the engine reported.
pub open spec fn fails_in_engine<T>(r: Result<T, ExplorerError>) -> bool {
    match r {
        Err(ExplorerError::Polars(_)) => true,
        _ => false,
    }
}

/// `r` reports that a configuration name is not known, and holds the name.
pub open spec fn fails_unknown<T>(r: Result<T, ExplorerError>, name: Seq<char>) -> bool {
    match r {
        Err(ExplorerError::UnknownOption(token)) => token@ == name,
        _ => false,
    }
}

impl ExSeries {
    /// In how many pieces the engine stores the series.
    pub open spec fn pieces(&self) -> nat {
        series_chunks(self.series)
    }

    /// The dtype of the series, if it is one of the six.
    pub fn dtype(&self) -> (r: Option<Dtype>)
        ensures
            r == self@.dtype,
    {
        series_dtype_of(&self.series)
    }

    /// Wraps a column of the engine.
    pub fn new(series: Series) -> (r: ExSeries)
        ensures
            r.series == series,
    {
        ExSeries { series }
    }
}

/// An Int64 series from optional integers; `None` becomes null.
pub fn s_new_i64(name: &str, val: Vec<Option<i64>>) -> (r: ExSeries)
    ensures
        r@.name == name@,
        r@.dtype == Some(Dtype::Int64),
        r@.cells == int_cells(val@),
        r.pieces() == 1,
{
    ExSeries::new(series_of_ints(name, &val))
}

/// A Boolean series from optional booleans; `None` becomes null.
pub fn s_new_bool(name: &str, val: Vec<Option<bool>>) -> (r: ExSeries)
    ensures
        r@.name == name@,
        r@.dtype == Some(Dtype::Boolean),
        r@.cells == bool_cells(val@),
        r.pieces() == 1,
{
    ExSeries::new(series_of_bools(name, &val))
}

/// A Utf8 series from optional strings; `None` becomes null.
pub fn s_new_str(name: &str, val: Vec<Option<String>>) -> (r: ExSeries)
    ensures
        r@.name == name@,
        r@.dtype == Some(Dtype::Utf8),
        r@.cells == str_cells(val@),
        r.pieces() == 1,
{
    ExSeries::new(series_of_strings(name, &val))
}

/// A Date32 series from optional strings, each parsed as a date; `None`
/// and a string that is no date become null.
pub fn s_new_date32(name: &str, val: Vec<Option<&str>>) -> (r: ExSeries)
    ensures
        r@.name == name@,
        r@.dtype == Some(Dtype::Date32),
        r@.cells == cast_cells(Dtype::Utf8, Dtype::Date32, strs_cells(val@)),
{
    let strings = series_of_strs(name, &val);
    assert(series_cells(strings) =~= strs_cells(val@));
    let dates = cast_column(&strings, Dtype::Date32);
    match dates {
        Ok(out) => {
            assert(series_cells(out) =~= cast_cells(Dtype::Utf8, Dtype::Date32, strs_cells(val@)));
            ExSeries::new(out)
        },
        // The engine converts every column of strings.
        Err(_) => ExSeries::new(strings),
    }
}

/// A Date64 series from optional strings, each parsed as a date and time;
/// `None` and a string that is no date and time become null.
pub fn s_new_date64(name: &str, val: Vec<Option<&str>>) -> (r: ExSeries)
    ensures
        r@.name == name@,
        r@.dtype == Some(Dtype::Date64),
        r@.cells == cast_cells(Dtype::Utf8, Dtype::Date64, strs_cells(val@)),
{
    let strings = series_of_strs(name, &val);
    assert(series_cells(strings) =~= strs_cells(val@));
    let dates = cast_column(&strings, Dtype::Date64);
    match dates {
        Ok(out) => {
            assert(series_cells(out) =~= cast_cells(Dtype::Utf8, Dtype::Date64, strs_cells(val@)));
            ExSeries::new(out)
        },
        // The engine converts every column of strings.
        Err(_) => ExSeries::new(strings),
    }
}

/// The cells of a column built from optional string slices.
pub open spec fn strs_cells(values: Seq<Option<&str>>) -> Seq<Cell> {
    Seq::new(
        values.len(),
        |i: int|
            match values[i] {
                Some(v) => Cell::Str(v@),
                None => Cell::Null,
            },
    )
}

/// The name of the series.
pub fn s_name(data: &ExSeries) -> (r: Result<String, ExplorerError>)
    ensures
        r is Ok,
        r.unwrap()@ == data@.name,
{
    Ok(series_name_of(&data.series))
}

/// Gives the series another name, in place. Dtype and cells stay.
pub fn s_rename(data: &mut ExSeries, name: &str)
    ensures
        final(data)@.name == name@,
        final(data)@.dtype == old(data)@.dtype,
        final(data)@.cells == old(data)@.cells,
{
    series_rename(&mut data.series, name);
}

/// The number of positions, nulls included.
pub fn s_len(data: &ExSeries) -> (r: Result<usize, ExplorerError>)
    ensures
        r is Ok,
        r.unwrap() == data@.cells.len(),
{
    Ok(series_len(&data.series))
}

/// The number of null positions.
pub fn s_null_count(data: &ExSeries) -> (r: Result<usize, ExplorerError>)
    ensures
        r is Ok,
        r.unwrap() == null_count(data@.cells),
{
    Ok(series_null_count(&data.series))
}

/// The name by which the engine prints the dtype of the series;
/// `TypeMismatch` if the column has none of the six.
pub fn s_dtype(data: &ExSeries) -> (r: Result<String, ExplorerError>)
    ensures
        match data@.dtype {
            Some(d) => r is Ok && r.unwrap()@ == dtype_text(d),
            None => fails(r, ExplorerError::TypeMismatch),
        },
{
    match series_dtype_of(&data.series) {
        Some(_) => Ok(series_dtype_text(&data.series)),
        None => Err(ExplorerError::TypeMismatch),
    }
}

/// Whether the engine can print a value of a column of the given dtype.
fn value_prints(dtype: Dtype, value: &Scalar) -> (r: bool)
    ensures
        r == cell_prints(dtype, value@),
{
    match value {
        Scalar::Integer(v) => match dtype {
            Dtype::Date32 => FIRST_DAY <= *v && *v <= LAST_DAY,
            Dtype::Date64 => (0 <= *v && *v <= LAST_MOMENT) || (FIRST_MOMENT <= *v && *v < 0 && (-*v)
                % 1000 == 0),
            _ => true,
        },
        _ => true,
    }
}

/// Whether the engine can print every cell that it shows of the column.
fn can_print(series: &Series, dtype: Dtype) -> (r: bool)
    requires
        series_dtype(*series) == Some(dtype),
    ensures
        r == prints(dtype, series_cells(*series)),
{
    if dtype != Dtype::Date32 && dtype != Dtype::Date64 {
        return true;
    }
    let n = series_len(series);
    let mut i: usize = 0;
    while i < n
        invariant
            i <= n,
            n == series_cells(*series).len(),
            series_dtype(*series) == Some(dtype),
            forall|j: int| 0 <= j < i && is_shown(n as nat, j) ==> cell_prints(dtype, #[trigger] series_cells(*series)[j]),
        decreases n - i,
    {
        if n > SHOWN_ROWS && SHOWN_ROWS / 2 <= i && i < n - SHOWN_ROWS / 2 {
            i = n - SHOWN_ROWS / 2;
        }
        let value = series_get(series, i);
        if !value_prints(dtype, &value) {
            assert(is_shown(n as nat, i as int));
            return false;
        }
        i += 1;
    }
    true
}

/// The series as the engine prints it for a reader: its length, its name,
/// its dtype and its cells, of a series of more than `SHOWN_ROWS` cells the
/// first and the last twelve. The text depends on the name, the dtype and
/// the cells alone.
///
/// `TypeMismatch` for a column of none of the six dtypes; `OutOfRange` where
/// a date that would be shown lies outside the engine's calendar.
pub fn s_as_str(data: &ExSeries) -> (r: Result<String, ExplorerError>)
    ensures
        match data@.dtype {
            None => fails(r, ExplorerError::TypeMismatch),
            Some(dtype) => if prints(dtype, data@.cells) {
                r is Ok && r.unwrap()@ == series_text(data@.name, dtype, data@.cells)
            } else {
                fails(r, ExplorerError::OutOfRange)
            },
        },
{
    let dtype = match series_dtype_of(&data.series) {
        Some(d) => d,
        None => {
            return Err(ExplorerError::TypeMismatch);
        },
    };
    if !can_print(&data.series, dtype) {
        return Err(ExplorerError::OutOfRange);
    }
    Ok(series_debug(&data.series))
}

/// A second, independent handle with the same name, dtype and cells.
pub fn s_clone(data: &ExSeries) -> (r: Result<ExSeries, ExplorerError>)
    ensures
        r is Ok,
        r.unwrap()@ == data@,
{
    Ok(ExSeries::new(data.series.clone()))
}

/// The value at a position.
///
/// `TypeMismatch` for a column of none of the six dtypes, `OutOfRange` for a
/// position past the end.
pub fn s_get(data: &ExSeries, idx: usize) -> (r: Result<Scalar, ExplorerError>)
    ensures
        data@.dtype is None ==> r == Err::<Scalar, ExplorerError>(ExplorerError::TypeMismatch),
        data@.dtype is Some && idx >= data@.cells.len() ==> r == Err::<Scalar, ExplorerError>(
            ExplorerError::OutOfRange,
        ),
        data@.dtype is Some && idx < data@.cells.len() ==> r is Ok && r.unwrap()@
            == data@.cells[idx as int],
{
    if series_dtype_of(&data.series).is_none() {
        return Err(ExplorerError::TypeMismatch);
    }
    if idx >= series_len(&data.series) {
        return Err(ExplorerError::OutOfRange);
    }
    Ok(series_get(&data.series, idx))
}

/// All values of the series, in order.
///
/// `TypeMismatch` for a column of none of the six dtypes.
pub fn s_to_list(data: &ExSeries) -> (r: Result<Vec<Scalar>, ExplorerError>)
    ensures
        data@.dtype is None ==> r == Err::<Vec<Scalar>, ExplorerError>(ExplorerError::TypeMismatch),
        data@.dtype is Some ==> r is Ok && r.unwrap()@.len() == data@.cells.len() && forall|i: int|
            0 <= i < data@.cells.len() ==> (#[trigger] r.unwrap()@[i])@ == data@.cells[i],
{
    if series_dtype_of(&data.series).is_none() {
        return Err(ExplorerError::TypeMismatch);
    }
    Ok(read_cells(&data.series))
}

/// A column under the name of a series.
pub(crate) fn named_as(data: &ExSeries, column: Series) -> (r: ExSeries)
    ensures
        r@.name == data@.name,
        r@.dtype == series_dtype(column),
        r@.cells == series_cells(column),
{
    let mut out = column;
    let name = series_name_of(&data.series);
    series_rename(&mut out, name.as_str());
    ExSeries::new(out)
}

/// The column itself if it is stored in a piece at least, and else an empty
/// column made anew, for the functions of the engine that join the pieces.
pub(crate) fn stored(series: &Series) -> (r: Series)
    requires
        series_dtype(*series) is Some,
    ensures
        series_chunks(r) >= 1,
        series_name(r) == series_name(*series),
        series_dtype(r) == series_dtype(*series),
        series_cells(r) == series_cells(*series),
{
    if series_n_chunks(series) == 0 {
        let none: Vec<u32> = Vec::new();
        let empty = series_take(series, &none);
        assert(series_cells(empty) =~= series_cells(*series));
        empty
    } else {
        series.clone()
    }
}

/// The column stored anew in one piece, for the functions of the engine
/// that need it so.
pub(crate) fn compact(series: &Series) -> (r: Series)
    requires
        series_dtype(*series) is Some,
    ensures
        series_is_compact(r),
        series_name(r) == series_name(*series),
        series_dtype(r) == series_dtype(*series),
        series_cells(r) == series_cells(*series),
{
    if series_len(series) == 0 {
        let none: Vec<u32> = Vec::new();
        let empty = series_take(series, &none);
        assert(series_cells(empty) =~= series_cells(*series));
        return empty;
    }
    // A column in one piece the engine does not store anew: the column is
    // joined to its own empty head first, which makes two pieces of it.
    let _ = series_n_chunks(series);
    let head = series_head(series, 0);
    assert(series_cells(*series) + series_cells(head) =~= series_cells(*series));
    match series_append(series, &head) {
        Ok(joined) => series_rechunk(&joined),
        // The engine joins every column to its own head.
        Err(_) => series.clone(),
    }
}

/// The column converted to another dtype by the engine, which wants it
/// compact.
pub(crate) fn cast_column(series: &Series, to: Dtype) -> (r: Result<Series, PolarsError>)
    requires
        series_dtype(*series) is Some,
        castable(series_dtype(*series).unwrap(), to),
    ensures
        r is Ok,
        series_name(r.unwrap()) == series_name(*series),
        series_dtype(r.unwrap()) == Some(to),
        series_cells(r.unwrap()) == cast_cells(
            series_dtype(*series).unwrap(),
            to,
            series_cells(*series),
        ),
        to == Dtype::Float64 && series_dtype(*series) != Some(Dtype::Utf8) ==> forall|i: int|
            0 <= i < series_cells(*series).len() ==> (#[trigger] series_cells(r.unwrap())[i] is Null
                <==> series_cells(*series)[i] is Null),
{
    let stored = compact(series);
    let out = series_cast(&stored, to);
    proof {
        if out is Ok {
            assert(series_cells(out.unwrap()) =~= cast_cells(
                series_dtype(*series).unwrap(),
                to,
                series_cells(*series),
            ));
        }
    }
    out
}

/// The values of a column, read one by one.
pub(crate) fn read_cells(series: &Series) -> (out: Vec<Scalar>)
    requires
        series_dtype(*series) is Some,
    ensures
        out@.len() == series_cells(*series).len(),
        forall|i: int| 0 <= i < out@.len() ==> (#[trigger] out@[i])@ == series_cells(*series)[i],
{
    let n = series_len(series);
    let mut out: Vec<Scalar> = Vec::new();
    let mut i: usize = 0;
    while i < n
        invariant
            i <= n,
            n == series_cells(*series).len(),
            series_dtype(*series) is Some,
            out@.len() == i,
            forall|j: int| 0 <= j < i ==> (#[trigger] out@[j])@ == series_cells(*series)[j],
        decreases n - i,
    {
        out.push(series_get(series, i));
        i += 1;
    }
    out
}

} // verus!
