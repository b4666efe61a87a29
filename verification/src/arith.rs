//! Arithmetic on two series, position by position. A null on either side
//! gives a null.
//!
//! Integers are added, subtracted and multiplied exactly: the engine leaves
//! a result that does not fit in 64 bits to the build, so the integers are
//! read and combined here. Floats go through the engine. A division always
//! gives floats.

use vstd::prelude::*;
use polars::prelude::Series;
use crate::dtype::Dtype;
use crate::engine::{error_message, series_add, series_cells, series_div};
use crate::engine::{series_dtype, series_dtype_of, series_len, series_mul, series_name};
use crate::engine::series_name_of;
use crate::engine::{series_of_ints, series_sub};
use crate::error::ExplorerError;
use crate::model::{arith_cell, arith_cells, arith_fits, arith_value, cast_cells, cell_fits};
use crate::model::{divides_by_zero, float_cells, int_cells, is_float_zero, Arith, FloatOp};
use crate::model::SeriesView;
use crate::scalar::{Cell, Scalar};
use crate::series::{cast_column, fails, gives, read_cells, stored, ExSeries};

verus! {

/// Whether a series holds numbers: integers or floats.
pub open spec fn is_numeric(dtype: Option<Dtype>) -> bool {
    dtype == Some(Dtype::Int64) || dtype == Some(Dtype::Float64)
}

/// What an addition, subtraction or multiplication gives.
///
/// `TypeMismatch` unless both series hold numbers, else `ShapeMismatch`
/// unless they have the same length. Two series of integers give the exact
/// integers under the name of the left one, or `OutOfRange` if one of them
/// does not fit in 64 bits. With floats on either side, integers are
/// converted to floats, and the result holds the floats that IEEE 754 gives,
/// under the name of the left series.
pub open spec fn gives_arith(
    r: Result<ExSeries, ExplorerError>,
    op: Arith,
    a: SeriesView,
    b: SeriesView,
) -> bool {
    if !is_numeric(a.dtype) || !is_numeric(b.dtype) {
        fails(r, ExplorerError::TypeMismatch)
    } else if a.cells.len() != b.cells.len() {
        fails(r, ExplorerError::ShapeMismatch)
    } else if a.dtype == Some(Dtype::Int64) && b.dtype == Some(Dtype::Int64) {
        if arith_fits(op, a.cells, b.cells) {
            gives(r, Some(Dtype::Int64), arith_cells(op, a.cells, b.cells)) && r.unwrap()@.name
                == a.name
        } else {
            fails(r, ExplorerError::OutOfRange)
        }
    } else {
        gives(
            r,
            Some(Dtype::Float64),
            float_cells(
                float_op(op),
                cast_cells(a.dtype.unwrap(), Dtype::Float64, a.cells),
                cast_cells(b.dtype.unwrap(), Dtype::Float64, b.cells),
            ),
        ) && r.unwrap()@.name == a.name
    }
}

/// The operation on floats that goes with an operation on integers.
pub open spec fn float_op(op: Arith) -> FloatOp {
    match op {
        Arith::Add => FloatOp::Add,
        Arith::Sub => FloatOp::Sub,
        Arith::Mul => FloatOp::Mul,
    }
}

/// One operation on two integers, if the result fits in 64 bits.
fn checked(op: &Arith, x: i64, y: i64) -> (r: Option<i64>)
    ensures
        r == if i64::MIN <= arith_value(*op, x as int, y as int) <= i64::MAX {
            Some(arith_value(*op, x as int, y as int) as i64)
        } else {
            None
        },
{
    match op {
        Arith::Add => x.checked_add(y),
        Arith::Sub => x.checked_sub(y),
        Arith::Mul => x.checked_mul(y),
    }
}

/// The operation on the integers read from two columns, or `None` if a
/// result does not fit in 64 bits.
fn combine_integers(
    op: &Arith,
    left: &Vec<Scalar>,
    right: &Vec<Scalar>,
    Ghost(a): Ghost<Seq<Cell>>,
    Ghost(b): Ghost<Seq<Cell>>,
) -> (r: Option<Vec<Option<i64>>>)
    requires
        left@.len() == a.len(),
        right@.len() == a.len(),
        b.len() == a.len(),
        forall|i: int| 0 <= i < a.len() ==> (#[trigger] left@[i])@ == a[i],
        forall|i: int| 0 <= i < b.len() ==> (#[trigger] right@[i])@ == b[i],
    ensures
        r is Some <==> arith_fits(*op, a, b),
        r is Some ==> int_cells(r.unwrap()@) == arith_cells(*op, a, b),
{
    let mut out: Vec<Option<i64>> = Vec::new();
    let mut i: usize = 0;
    while i < left.len()
        invariant
            i <= left@.len(),
            left@.len() == a.len(),
            right@.len() == a.len(),
            b.len() == a.len(),
            forall|j: int| 0 <= j < a.len() ==> (#[trigger] left@[j])@ == a[j],
            forall|j: int| 0 <= j < b.len() ==> (#[trigger] right@[j])@ == b[j],
            out@.len() == i,
            forall|j: int|
                0 <= j < i ==> cell_fits(Dtype::Int64, #[trigger] arith_cell(*op, a[j], b[j])),
            forall|j: int| 0 <= j < i ==> #[trigger] int_cells(out@)[j] == arith_cell(*op, a[j], b[j]),
        decreases left@.len() - i,
    {
        assert(left@[i as int]@ == a[i as int]);
        assert(right@[i as int]@ == b[i as int]);
        let cell = match (&left[i], &right[i]) {
            (Scalar::Integer(x), Scalar::Integer(y)) => {
                match checked(op, *x, *y) {
                    Some(v) => Some(v),
                    None => {
                        proof {
                            assert(!cell_fits(Dtype::Int64, arith_cell(*op, a[i as int], b[i as int])));
                        }
                        return None;
                    },
                }
            },
            _ => None,
        };
        let ghost before = out@;
        out.push(cell);
        proof {
            assert forall|j: int| 0 <= j < i + 1 implies #[trigger] int_cells(out@)[j]
                == arith_cell(*op, a[j], b[j]) by {
                if j < i {
                    assert(int_cells(before)[j] == arith_cell(*op, a[j], b[j]));
                    assert(out@[j] == before[j]);
                }
            }
        }
        i += 1;
    }
    proof {
        assert(int_cells(out@) =~= arith_cells(*op, a, b));
    }
    Some(out)
}

/// A numeric column as floats.
fn to_floats(s: &Series) -> (r: Result<Series, ExplorerError>)
    requires
        is_numeric(series_dtype(*s)),
    ensures
        r is Ok,
        series_name(r.unwrap()) == series_name(*s),
        series_dtype(r.unwrap()) == Some(Dtype::Float64),
        series_cells(r.unwrap()) == cast_cells(
            series_dtype(*s).unwrap(),
            Dtype::Float64,
            series_cells(*s),
        ),
        forall|i: int|
            0 <= i < series_cells(*s).len() ==> (#[trigger] series_cells(r.unwrap())[i] is Null
                <==> series_cells(*s)[i] is Null),
{
    match cast_column(s, Dtype::Float64) {
        Ok(out) => {
            assert(series_cells(out) =~= cast_cells(
                series_dtype(*s).unwrap(),
                Dtype::Float64,
                series_cells(*s),
            ));
            Ok(out)
        },
        Err(e) => Err(ExplorerError::Polars(error_message(&e))),
    }
}

/// Whether a series holds numbers.
fn holds_numbers(s: &Series) -> (r: bool)
    ensures
        r == is_numeric(series_dtype(*s)),
{
    match series_dtype_of(s) {
        Some(Dtype::Int64) | Some(Dtype::Float64) => true,
        _ => false,
    }
}

/// An addition, subtraction or multiplication of two series.
pub fn combine(op: Arith, data: &ExSeries, other: &ExSeries) -> (r: Result<ExSeries, ExplorerError>)
    ensures
        gives_arith(r, op, data@, other@),
{
    if !holds_numbers(&data.series) || !holds_numbers(&other.series) {
        return Err(ExplorerError::TypeMismatch);
    }
    if series_len(&data.series) != series_len(&other.series) {
        return Err(ExplorerError::ShapeMismatch);
    }
    let both_integers = match (series_dtype_of(&data.series), series_dtype_of(&other.series)) {
        (Some(Dtype::Int64), Some(Dtype::Int64)) => true,
        _ => false,
    };
    if both_integers {
        let left = read_cells(&data.series);
        let right = read_cells(&other.series);
        return match combine_integers(
            &op,
            &left,
            &right,
            Ghost(data@.cells),
            Ghost(other@.cells),
        ) {
            Some(values) => {
                let name = series_name_of(&data.series);
                Ok(ExSeries::new(series_of_ints(name.as_str(), &values)))
            },
            None => Err(ExplorerError::OutOfRange),
        };
    }
    let left = stored(&to_floats(&data.series)?);
    let right = stored(&to_floats(&other.series)?);
    let out = match op {
        Arith::Add => series_add(&left, &right),
        Arith::Sub => series_sub(&left, &right),
        Arith::Mul => series_mul(&left, &right),
    };
    proof {
        assert(series_cells(out) =~= float_cells(
            float_op(op),
            series_cells(left),
            series_cells(right),
        ));
    }
    Ok(ExSeries::new(out))
}

/// The sums of the values of two series.
pub fn s_add(data: &ExSeries, other: &ExSeries) -> (r: Result<ExSeries, ExplorerError>)
    ensures
        gives_arith(r, Arith::Add, data@, other@),
{
    combine(Arith::Add, data, other)
}

/// The differences of the values of two series.
pub fn s_sub(data: &ExSeries, other: &ExSeries) -> (r: Result<ExSeries, ExplorerError>)
    ensures
        gives_arith(r, Arith::Sub, data@, other@),
{
    combine(Arith::Sub, data, other)
}

/// The products of the values of two series.
pub fn s_mul(data: &ExSeries, other: &ExSeries) -> (r: Result<ExSeries, ExplorerError>)
    ensures
        gives_arith(r, Arith::Mul, data@, other@),
{
    combine(Arith::Mul, data, other)
}

/// Whether a division of the floats read from two columns would divide a
/// value by zero.
fn zero_divides(
    left: &Vec<Scalar>,
    right: &Vec<Scalar>,
    Ghost(a): Ghost<Seq<Cell>>,
    Ghost(b): Ghost<Seq<Cell>>,
) -> (r: bool)
    requires
        left@.len() == a.len(),
        right@.len() == a.len(),
        b.len() == a.len(),
        forall|i: int| 0 <= i < a.len() ==> (#[trigger] left@[i])@ == a[i],
        forall|i: int| 0 <= i < b.len() ==> (#[trigger] right@[i])@ == b[i],
    ensures
        r == divides_by_zero(a, b),
{
    let mut i: usize = 0;
    while i < left.len()
        invariant
            i <= left@.len(),
            left@.len() == a.len(),
            right@.len() == a.len(),
            b.len() == a.len(),
            forall|j: int| 0 <= j < a.len() ==> (#[trigger] left@[j])@ == a[j],
            forall|j: int| 0 <= j < b.len() ==> (#[trigger] right@[j])@ == b[j],
            forall|j: int|
                0 <= j < i ==> !(!(a[j] is Null) && (#[trigger] b[j] matches Cell::Float(bits)
                    && is_float_zero(bits))),
        decreases left@.len() - i,
    {
        assert(left@[i as int]@ == a[i as int]);
        assert(right@[i as int]@ == b[i as int]);
        let has_value = match &left[i] {
            Scalar::Null => false,
            _ => true,
        };
        let by_zero = match &right[i] {
            Scalar::Float(bits) => *bits == 0 || *bits == 0x8000_0000_0000_0000,
            _ => false,
        };
        if has_value && by_zero {
            assert(!(a[i as int] is Null) && (b[i as int] matches Cell::Float(bits)
                && is_float_zero(bits)));
            return true;
        }
        i += 1;
    }
    false
}

/// The quotients of the values of two series, as floats; integers are
/// converted first.
///
/// `TypeMismatch` unless both series hold numbers, else `ShapeMismatch`
/// unless they have the same length, else `OutOfRange` if a value would be
/// divided by a zero.
pub fn s_div(data: &ExSeries, other: &ExSeries) -> (r: Result<ExSeries, ExplorerError>)
    ensures
        if !is_numeric(data@.dtype) || !is_numeric(other@.dtype) {
            fails(r, ExplorerError::TypeMismatch)
        } else if data@.cells.len() != other@.cells.len() {
            fails(r, ExplorerError::ShapeMismatch)
        } else if divides_by_zero(
            data@.cells,
            cast_cells(other@.dtype.unwrap(), Dtype::Float64, other@.cells),
        ) {
            fails(r, ExplorerError::OutOfRange)
        } else {
            gives(
                r,
                Some(Dtype::Float64),
                float_cells(
                    FloatOp::Div,
                    cast_cells(data@.dtype.unwrap(), Dtype::Float64, data@.cells),
                    cast_cells(other@.dtype.unwrap(), Dtype::Float64, other@.cells),
                ),
            ) && r.unwrap()@.name == data@.name
        },
{
    if !holds_numbers(&data.series) || !holds_numbers(&other.series) {
        return Err(ExplorerError::TypeMismatch);
    }
    if series_len(&data.series) != series_len(&other.series) {
        return Err(ExplorerError::ShapeMismatch);
    }
    let left = to_floats(&data.series)?;
    let right = to_floats(&other.series)?;
    let dividends = read_cells(&left);
    let divisors = read_cells(&right);
    let by_zero = zero_divides(
        &dividends,
        &divisors,
        Ghost(series_cells(left)),
        Ghost(series_cells(right)),
    );
    proof {
        let a = data@.cells;
        let fa = series_cells(left);
        let fb = series_cells(right);
        if divides_by_zero(fa, fb) {
            let i = choose|i: int|
                0 <= i < fa.len() && !(fa[i] is Null) && (#[trigger] fb[i] matches Cell::Float(bits)
                    && is_float_zero(bits));
            assert(!(a[i] is Null));
            assert(divides_by_zero(a, fb));
        }
        if divides_by_zero(a, fb) {
            let i = choose|i: int|
                0 <= i < a.len() && !(a[i] is Null) && (#[trigger] fb[i] matches Cell::Float(bits)
                    && is_float_zero(bits));
            assert(!(fa[i] is Null));
            assert(divides_by_zero(fa, fb));
        }
    }
    if by_zero {
        return Err(ExplorerError::OutOfRange);
    }
    let out = series_div(&stored(&left), &stored(&right));
    proof {
        assert(series_cells(out) =~= float_cells(
            FloatOp::Div,
            series_cells(left),
            series_cells(right),
        ));
    }
    Ok(ExSeries::new(out))
}

} // verus!
