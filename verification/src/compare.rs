//! Comparison of two series, position by position, and of two series as a
//! whole.

use vstd::prelude::*;
use polars::prelude::Series;
use crate::cast::same_text;
use crate::dtype::Dtype;
use crate::engine::{error_message, series_append, series_cells, series_dtype};
use crate::engine::{series_dtype_of, series_eq, series_gt, series_gt_eq, series_head};
use crate::engine::{series_len, series_lt, series_lt_eq, series_neq};
use crate::engine::{series_equal, series_equal_missing, series_null_count};
use crate::error::ExplorerError;
use crate::model::{cast_cells, cell_equal, cell_fits, compare_cells, lemma_same_values};
use crate::model::{null_count, same_values, Comparison};
use crate::scalar::{Cell, Scalar};
use crate::series::{cast_column, fails, gives, read_cells, stored, ExSeries};

verus! {

/// The dtype in which two series are compared: their own if they share one,
/// Float64 if one holds integers and the other floats.
pub open spec fn common_dtype(a: Option<Dtype>, b: Option<Dtype>) -> Option<Dtype> {
    match (a, b) {
        (Some(x), Some(y)) => if x == y {
            Some(x)
        } else if (x == Dtype::Int64 && y == Dtype::Float64) || (x == Dtype::Float64 && y
            == Dtype::Int64) {
            Some(Dtype::Float64)
        } else {
            None
        },
        _ => None,
    }
}

/// What a comparison of two series gives: a Boolean series with a null
/// wherever either side is null, and the truth of the comparison elsewhere.
/// Integers that meet floats are converted to floats first.
///
/// `TypeMismatch` unless the series have the same dtype, one of the six, or
/// one holds integers and the other floats; else `ShapeMismatch` unless they
/// have the same length.
pub open spec fn gives_comparison(
    r: Result<ExSeries, ExplorerError>,
    op: Comparison,
    a: crate::model::SeriesView,
    b: crate::model::SeriesView,
) -> bool {
    match common_dtype(a.dtype, b.dtype) {
        None => fails(r, ExplorerError::TypeMismatch),
        Some(dtype) => if a.cells.len() != b.cells.len() {
            fails(r, ExplorerError::ShapeMismatch)
        } else {
            gives(
                r,
                Some(Dtype::Boolean),
                compare_cells(
                    op,
                    cast_cells(a.dtype.unwrap(), dtype, a.cells),
                    cast_cells(b.dtype.unwrap(), dtype, b.cells),
                ),
            )
        },
    }
}

/// The dtype in which two columns are compared.
fn common_dtype_of(a: &Series, b: &Series) -> (r: Option<Dtype>)
    ensures
        r == common_dtype(series_dtype(*a), series_dtype(*b)),
{
    match (series_dtype_of(a), series_dtype_of(b)) {
        (Some(x), Some(y)) => {
            if x == y {
                Some(x)
            } else {
                match (x, y) {
                    (Dtype::Int64, Dtype::Float64) | (Dtype::Float64, Dtype::Int64) => Some(
                        Dtype::Float64,
                    ),
                    _ => None,
                }
            }
        },
        _ => None,
    }
}

/// The engine's comparison of two columns of one dtype and one length
/// other than 1.
fn compare_columns(op: &Comparison, a: &Series, b: &Series) -> (r: Series)
    requires
        series_dtype(*a) is Some,
        series_dtype(*a) == series_dtype(*b),
        series_cells(*a).len() == series_cells(*b).len(),
        series_cells(*a).len() != 1,
    ensures
        series_dtype(r) == Some(Dtype::Boolean),
        series_cells(r) == compare_cells(*op, series_cells(*a), series_cells(*b)),
{
    let a = stored(a);
    let b = stored(b);
    match op {
        Comparison::Eq => series_eq(&a, &b),
        Comparison::Neq => series_neq(&a, &b),
        Comparison::Gt => series_gt(&a, &b),
        Comparison::GtEq => series_gt_eq(&a, &b),
        Comparison::Lt => series_lt(&a, &b),
        Comparison::LtEq => series_lt_eq(&a, &b),
    }
}

/// A column in the dtype of a comparison.
fn in_dtype(s: &Series, dtype: Dtype) -> (r: Result<Series, ExplorerError>)
    requires
        series_dtype(*s) is Some,
        series_dtype(*s) == Some(dtype) || (dtype == Dtype::Float64 && series_dtype(*s) == Some(
            Dtype::Int64,
        )),
    ensures
        r is Ok,
        series_dtype(r.unwrap()) == Some(dtype),
        series_cells(r.unwrap()) == cast_cells(series_dtype(*s).unwrap(), dtype, series_cells(*s)),
{
    match cast_column(s, dtype) {
        Ok(out) => {
            assert(series_cells(out) =~= cast_cells(
                series_dtype(*s).unwrap(),
                dtype,
                series_cells(*s),
            ));
            Ok(out)
        },
        Err(e) => Err(ExplorerError::Polars(error_message(&e))),
    }
}

/// The comparison of two series, position by position.
pub fn compare(op: Comparison, data: &ExSeries, rhs: &ExSeries) -> (r: Result<
    ExSeries,
    ExplorerError,
>)
    ensures
        gives_comparison(r, op, data@, rhs@),
{
    let dtype = match common_dtype_of(&data.series, &rhs.series) {
        Some(d) => d,
        None => {
            return Err(ExplorerError::TypeMismatch);
        },
    };
    let n = series_len(&data.series);
    if n != series_len(&rhs.series) {
        return Err(ExplorerError::ShapeMismatch);
    }
    let left = in_dtype(&data.series, dtype)?;
    let right = in_dtype(&rhs.series, dtype)?;
    if n != 1 {
        return Ok(ExSeries::new(compare_columns(&op, &left, &right)));
    }
    // The engine reads a right side of one cell as a single value, and then
    // gives `false` where a null is due. Each side is doubled, compared, and
    // the first cell of the result is kept.
    let left2 = match series_append(&left, &left) {
        Ok(s) => s,
        Err(e) => {
            return Err(ExplorerError::Polars(error_message(&e)));
        },
    };
    let right2 = match series_append(&right, &right) {
        Ok(s) => s,
        Err(e) => {
            return Err(ExplorerError::Polars(error_message(&e)));
        },
    };
    let both = compare_columns(&op, &left2, &right2);
    let out = series_head(&both, 1);
    proof {
        let a = series_cells(left);
        let b = series_cells(right);
        assert(series_cells(out) =~= compare_cells(op, a, b));
    }
    Ok(ExSeries::new(out))
}

/// Whether each value of `data` equals the value of `rhs` at its position.
pub fn s_eq(data: &ExSeries, rhs: &ExSeries) -> (r: Result<ExSeries, ExplorerError>)
    ensures
        gives_comparison(r, Comparison::Eq, data@, rhs@),
{
    compare(Comparison::Eq, data, rhs)
}

/// Whether each value of `data` differs from the value of `rhs` at its
/// position.
pub fn s_neq(data: &ExSeries, rhs: &ExSeries) -> (r: Result<ExSeries, ExplorerError>)
    ensures
        gives_comparison(r, Comparison::Neq, data@, rhs@),
{
    compare(Comparison::Neq, data, rhs)
}

/// Whether each value of `data` is greater than the value of `rhs` at its
/// position.
pub fn s_gt(data: &ExSeries, rhs: &ExSeries) -> (r: Result<ExSeries, ExplorerError>)
    ensures
        gives_comparison(r, Comparison::Gt, data@, rhs@),
{
    compare(Comparison::Gt, data, rhs)
}

/// Whether each value of `data` is at least the value of `rhs` at its
/// position.
pub fn s_gt_eq(data: &ExSeries, rhs: &ExSeries) -> (r: Result<ExSeries, ExplorerError>)
    ensures
        gives_comparison(r, Comparison::GtEq, data@, rhs@),
{
    compare(Comparison::GtEq, data, rhs)
}

/// Whether each value of `data` is less than the value of `rhs` at its
/// position.
pub fn s_lt(data: &ExSeries, rhs: &ExSeries) -> (r: Result<ExSeries, ExplorerError>)
    ensures
        gives_comparison(r, Comparison::Lt, data@, rhs@),
{
    compare(Comparison::Lt, data, rhs)
}

/// Whether each value of `data` is at most the value of `rhs` at its
/// position.
pub fn s_lt_eq(data: &ExSeries, rhs: &ExSeries) -> (r: Result<ExSeries, ExplorerError>)
    ensures
        gives_comparison(r, Comparison::LtEq, data@, rhs@),
{
    compare(Comparison::LtEq, data, rhs)
}

/// Whether the floats read from two columns are the same values, told
/// from the cells of their comparison for equality.
fn same_floats(
    left: &Vec<Scalar>,
    right: &Vec<Scalar>,
    equal: &Vec<Scalar>,
    null_equal: bool,
    Ghost(a): Ghost<Seq<Cell>>,
    Ghost(b): Ghost<Seq<Cell>>,
) -> (r: bool)
    requires
        left@.len() == a.len(),
        right@.len() == a.len(),
        equal@.len() == a.len(),
        b.len() == a.len(),
        forall|i: int| 0 <= i < a.len() ==> (#[trigger] left@[i])@ == a[i],
        forall|i: int| 0 <= i < a.len() ==> (#[trigger] right@[i])@ == b[i],
        forall|i: int|
            0 <= i < a.len() ==> (#[trigger] equal@[i])@ == compare_cells(Comparison::Eq, a, b)[i],
    ensures
        r == same_values(a, b, null_equal),
{
    let mut i: usize = 0;
    while i < left.len()
        invariant
            i <= left@.len(),
            left@.len() == a.len(),
            right@.len() == a.len(),
            equal@.len() == a.len(),
            b.len() == a.len(),
            forall|j: int| 0 <= j < a.len() ==> (#[trigger] left@[j])@ == a[j],
            forall|j: int| 0 <= j < a.len() ==> (#[trigger] right@[j])@ == b[j],
            forall|j: int|
                0 <= j < a.len() ==> (#[trigger] equal@[j])@ == compare_cells(
                    Comparison::Eq,
                    a,
                    b,
                )[j],
            forall|j: int|
                0 <= j < i ==> if a[j] is Null || b[j] is Null {
                    null_equal && #[trigger] a[j] is Null && b[j] is Null
                } else {
                    cell_equal(a[j], b[j])
                },
        decreases left@.len() - i,
    {
        assert(left@[i as int]@ == a[i as int]);
        assert(right@[i as int]@ == b[i as int]);
        assert(equal@[i as int]@ == compare_cells(Comparison::Eq, a, b)[i as int]);
        let left_null = match &left[i] {
            Scalar::Null => true,
            _ => false,
        };
        let right_null = match &right[i] {
            Scalar::Null => true,
            _ => false,
        };
        let same = if left_null || right_null {
            null_equal && left_null && right_null
        } else {
            match &equal[i] {
                Scalar::Boolean(e) => *e,
                _ => false,
            }
        };
        if !same {
            assert(!(if a[i as int] is Null || b[i as int] is Null {
                null_equal && a[i as int] is Null && b[i as int] is Null
            } else {
                cell_equal(a[i as int], b[i as int])
            }));
            return false;
        }
        i += 1;
    }
    true
}

/// Whether two values are the same cell.
pub(crate) fn same_cell(a: &Scalar, b: &Scalar) -> (r: bool)
    ensures
        r == (a@ == b@),
{
    match (a, b) {
        (Scalar::Null, Scalar::Null) => true,
        (Scalar::Boolean(x), Scalar::Boolean(y)) => *x == *y,
        (Scalar::Integer(x), Scalar::Integer(y)) => *x == *y,
        (Scalar::Float(x), Scalar::Float(y)) => *x == *y,
        (Scalar::Utf8(x), Scalar::Utf8(y)) => same_text(x.as_str(), y.as_str()),
        _ => false,
    }
}

/// Whether two columns hold the same cells, told from the cells read from
/// them.
fn same_cells(left: &Vec<Scalar>, right: &Vec<Scalar>, Ghost(a): Ghost<Seq<Cell>>, Ghost(b): Ghost<
    Seq<Cell>,
>) -> (r: bool)
    requires
        left@.len() == a.len(),
        right@.len() == b.len(),
        a.len() == b.len(),
        forall|i: int| 0 <= i < a.len() ==> (#[trigger] left@[i])@ == a[i],
        forall|i: int| 0 <= i < b.len() ==> (#[trigger] right@[i])@ == b[i],
    ensures
        r == (a == b),
{
    let mut i: usize = 0;
    while i < left.len()
        invariant
            i <= left@.len(),
            left@.len() == a.len(),
            right@.len() == b.len(),
            a.len() == b.len(),
            forall|j: int| 0 <= j < a.len() ==> (#[trigger] left@[j])@ == a[j],
            forall|j: int| 0 <= j < b.len() ==> (#[trigger] right@[j])@ == b[j],
            forall|j: int| 0 <= j < i ==> a[j] == b[j],
        decreases left@.len() - i,
    {
        assert(left@[i as int]@ == a[i as int]);
        assert(right@[i as int]@ == b[i as int]);
        if !same_cell(&left[i], &right[i]) {
            return false;
        }
        i += 1;
    }
    assert(a =~= b);
    true
}

/// Whether two series hold the same values at the same positions. With
/// `null_equal`, a null equals a null; without, a null equals nothing, and a
/// series with a null is not even equal to itself. Floats are equal as
/// numbers. The names do not count.
///
/// `TypeMismatch` unless both series have the same dtype, one of the six.
pub fn s_series_equal(data: &ExSeries, other: &ExSeries, null_equal: bool) -> (r: Result<
    bool,
    ExplorerError,
>)
    ensures
        data@.dtype is None || data@.dtype != other@.dtype ==> fails(
            r,
            ExplorerError::TypeMismatch,
        ),
        data@.dtype is Some && data@.dtype == other@.dtype ==> r == Ok::<bool, ExplorerError>(
            same_values(data@.cells, other@.cells, null_equal),
        ),
{
    let dtype = match (series_dtype_of(&data.series), series_dtype_of(&other.series)) {
        (Some(a), Some(b)) => {
            if a != b {
                return Err(ExplorerError::TypeMismatch);
            }
            a
        },
        _ => {
            return Err(ExplorerError::TypeMismatch);
        },
    };
    let n = series_len(&data.series);
    if n != series_len(&other.series) {
        return Ok(false);
    }
    if dtype == Dtype::Float64 {
        // The engine takes two handles on one column for equal, though a NaN
        // in it equals nothing: floats are compared cell by cell.
        let equal = compare(Comparison::Eq, data, other)?;
        proof {
            assert(cast_cells(Dtype::Float64, Dtype::Float64, data@.cells) =~= data@.cells);
            assert(cast_cells(Dtype::Float64, Dtype::Float64, other@.cells) =~= other@.cells);
        }
        let left = read_cells(&data.series);
        let right = read_cells(&other.series);
        let flags = read_cells(&equal.series);
        return Ok(
            same_floats(
                &left,
                &right,
                &flags,
                null_equal,
                Ghost(data@.cells),
                Ghost(other@.cells),
            ),
        );
    }
    proof {
        assert forall|i: int| 0 <= i < data@.cells.len() implies !(
        #[trigger] data@.cells[i] is Float) by {
            assert(cell_fits(dtype, data@.cells[i]));
        }
        lemma_same_values(data@.cells, other@.cells, null_equal);
    }
    if n > u32::MAX as usize {
        // The engine counts the equal positions in 32 bits: longer series
        // are compared cell by cell.
        let left = read_cells(&data.series);
        let right = read_cells(&other.series);
        let same = same_cells(&left, &right, Ghost(data@.cells), Ghost(other@.cells));
        return Ok(same && (null_equal || series_null_count(&data.series) == 0));
    }
    if null_equal {
        return Ok(series_equal_missing(&stored(&data.series), &stored(&other.series)));
    }
    // The engine takes two handles on one column for equal whatever the
    // column holds: the nulls are looked for first.
    if series_null_count(&data.series) > 0 || series_null_count(&other.series) > 0 {
        proof {
            if data@.cells == other@.cells {
                assert(null_count(data@.cells) > 0);
            }
        }
        return Ok(false);
    }
    if n == 0 {
        assert(data@.cells =~= other@.cells);
        return Ok(true);
    }
    Ok(series_equal(&data.series, &other.series))
}

} // verus!
