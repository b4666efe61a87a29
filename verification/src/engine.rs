//! The columnar engine: its types as this crate sees them, and one function
//! of this crate for each function of the engine that the operations call.
//!
//! Nothing in this file is proved. Each contract restates what the engine's
//! source shows of the function that the body calls.

use vstd::prelude::*;
use polars::prelude::{AnyValue, ChunkCompare, DataType, FillNoneStrategy, IntoSeries, NamedFrom};
use polars::prelude::{NewChunkedArray, PolarsError, Series, UInt32Chunked};
use rand::seq::IteratorRandom;
use rand::{Rng, SeedableRng};
use rand_pcg::Lcg128Xsl64;
use crate::dtype::{dtype_text, Dtype};
use crate::model::{bool_cells, cast_value, castable, cells_fit, compare_cells, divides_by_zero};
use crate::model::{drop_null_cells, every_nth_cells, fill_backward_cells, fill_forward_cells};
use crate::model::{fill_with, fillable, filter_cells, float_add, float_div, float_equal};
use crate::model::{float_less, float_mul, float_sub, gather_cells};
use crate::model::{head_cells, int_cells, int_mean, is_distinct_copy};
use crate::model::{float_rolling_max, float_rolling_mean, float_rolling_min, float_rolling_sum};
use crate::model::{float_running_cells, is_float_extreme_fill};
use crate::model::{is_duplicated_cells, is_extreme_fill, is_extreme_summary, joined_chunks};
use crate::model::{float_mean, float_sum_cells, is_float_summary};
use crate::model::{is_float_rolling, is_summary, value_count, zero_of};
use crate::model::{is_not_null_cells, is_null_cells, is_unique_cells};
use crate::model::{known_cast, not_cells, null_count, peak_cells, prints, reverse_cells};
use crate::model::rolling_cells;
use crate::model::{running_cells, shift_cells, slice_cells, str_cells, str_less, sum_cells};
use crate::model::sums_fit;
use crate::model::{tail_cells, true_positions, zip_cells, Comparison, FillStrategy, Rolling};
use crate::sample::{pcg_choice, pcg_draw, pcg_seeded, picked_at};
use crate::scalar::{Cell, Scalar};
use crate::strings::{explode_cells, first_text, lowercase_of, parsed_date32, parsed_date64, regex_is_match};
use crate::strings::{regex_is_valid, regex_replace, regex_replace_all, sniffed_format};
use crate::strings::{uppercase_of, utf8_len};

verus! {

/// The engine's column: opaque here, described by the three names below.
#[verifier::external_type_specification]
#[verifier::external_body]
pub struct ExPolarsSeries(Series);

/// The engine's error: opaque here, read only through its message.
#[verifier::external_type_specification]
#[verifier::external_body]
pub struct ExPolarsError(PolarsError);

/// The name that a column carries.
pub uninterp spec fn series_name(s: Series) -> Seq<char>;

/// The element type of a column, where it is one of the six of this crate.
pub uninterp spec fn series_dtype(s: Series) -> Option<Dtype>;

/// The cells of a column, in order: a null cell for a null position, else the
/// value, a float as its bits and a date as its count since the epoch.
pub uninterp spec fn series_cells(s: Series) -> Seq<Cell>;

/// Whether a column is stored in one piece that starts where its buffers
/// start. A column that was cut out of another, or joined from several, is
/// not, and some functions of the engine then misplace its nulls.
pub uninterp spec fn series_is_compact(s: Series) -> bool;

/// In how many pieces a column is stored. A column that was cut from past
/// the end of another is stored in none, and the engine panics where it
/// joins the pieces of such a column.
pub uninterp spec fn series_chunks(s: Series) -> nat;

/// `<` on `str`: whether the first string comes before the second. Strings
/// are ordered by their bytes, which is the order of their characters, a
/// string after each of its proper prefixes.
#[verifier::external_body]
pub(crate) fn text_less(a: &str, b: &str) -> (r: bool)
    ensures
        r == str_less(a@, b@),
{
    a < b
}

/// `Display` of `PolarsError`: the message of an engine error.
#[verifier::external_body]
pub(crate) fn error_message(e: &PolarsError) -> String {
    format!("{}", e)
}

/// `Series::new` on optional 64-bit integers: an Int64 column with the given
/// name, null where the input is `None`.
#[verifier::external_body]
pub(crate) fn series_of_ints(name: &str, values: &Vec<Option<i64>>) -> (s: Series)
    ensures
        series_name(s) == name@,
        series_dtype(s) == Some(Dtype::Int64),
        series_cells(s) == int_cells(values@),
        series_chunks(s) == 1,
{
    Series::new(name, values.as_slice())
}

/// `Series::new` on optional booleans: a Boolean column with the given name,
/// null where the input is `None`.
#[verifier::external_body]
pub(crate) fn series_of_bools(name: &str, values: &Vec<Option<bool>>) -> (s: Series)
    ensures
        series_name(s) == name@,
        series_dtype(s) == Some(Dtype::Boolean),
        series_cells(s) == bool_cells(values@),
        series_chunks(s) == 1,
{
    Series::new(name, values.as_slice())
}

/// `Series::new` on optional strings: a Utf8 column with the given name, null
/// where the input is `None`.
#[verifier::external_body]
pub(crate) fn series_of_strings(name: &str, values: &Vec<Option<String>>) -> (s: Series)
    ensures
        series_name(s) == name@,
        series_dtype(s) == Some(Dtype::Utf8),
        series_cells(s) == str_cells(values@),
        series_chunks(s) == 1,
{
    Series::new(name, values.as_slice())
}

/// `SeriesTrait::len`: the number of positions.
#[verifier::external_body]
pub(crate) fn series_len(s: &Series) -> (n: usize)
    ensures
        n == series_cells(*s).len(),
{
    s.len()
}

/// `SeriesTrait::null_count`: the number of null positions.
#[verifier::external_body]
pub(crate) fn series_null_count(s: &Series) -> (n: usize)
    ensures
        n == null_count(series_cells(*s)),
{
    s.null_count()
}

/// `SeriesTrait::name`, copied into a `String`.
#[verifier::external_body]
pub(crate) fn series_name_of(s: &Series) -> (name: String)
    ensures
        name@ == series_name(*s),
{
    s.name().to_string()
}

/// `SeriesTrait::dtype`, told apart into the six element types of this crate;
/// `None` for any other. A column of one of the six holds only cells of that
/// type, and nulls.
#[verifier::external_body]
pub(crate) fn series_dtype_of(s: &Series) -> (dtype: Option<Dtype>)
    ensures
        dtype == series_dtype(*s),
        dtype is Some ==> cells_fit(dtype.unwrap(), series_cells(*s)),
{
    match s.dtype() {
        DataType::Boolean => Some(Dtype::Boolean),
        DataType::Int64 => Some(Dtype::Int64),
        DataType::Float64 => Some(Dtype::Float64),
        DataType::Utf8 => Some(Dtype::Utf8),
        DataType::Date32 => Some(Dtype::Date32),
        DataType::Date64 => Some(Dtype::Date64),
        _ => None,
    }
}

/// `Clone` of `Series`: a second handle on the same column, so with the same
/// name, dtype and cells.
pub assume_specification[ <Series as Clone>::clone ](s: &Series) -> (r: Series)
    ensures
        r == *s,
;

/// `Series::rename`: the column under another name, dtype and cells as they
/// were.
#[verifier::external_body]
pub(crate) fn series_rename(s: &mut Series, name: &str)
    ensures
        series_name(*final(s)) == name@,
        series_dtype(*final(s)) == series_dtype(*old(s)),
        series_cells(*final(s)) == series_cells(*old(s)),
        series_is_compact(*final(s)) == series_is_compact(*old(s)),
{
    s.rename(name);
}

/// `SeriesTrait::get`: the value at a position, its variant told apart. The
/// engine panics on a position past the end.
#[verifier::external_body]
pub(crate) fn series_get(s: &Series, idx: usize) -> (value: Scalar)
    requires
        series_dtype(*s) is Some,
        idx < series_cells(*s).len(),
    ensures
        value@ == series_cells(*s)[idx as int],
{
    match s.get(idx) {
        AnyValue::Boolean(v) => Scalar::Boolean(v),
        AnyValue::Utf8(v) => Scalar::Utf8(v.to_string()),
        AnyValue::Int64(v) => Scalar::Integer(v),
        AnyValue::Float64(v) => Scalar::Float(v.to_bits()),
        AnyValue::Date32(v) => Scalar::Integer(i64::from(v)),
        AnyValue::Date64(v) => Scalar::Integer(v),
        _ => Scalar::Null,
    }
}

/// `SeriesTrait::n_chunks`: in how many pieces the column is stored. A
/// column that has cells has a piece that holds them.
#[verifier::external_body]
pub(crate) fn series_n_chunks(s: &Series) -> (r: usize)
    ensures
        r == series_chunks(*s),
        r == 0 ==> series_cells(*s).len() == 0,
{
    s.n_chunks()
}

/// `SeriesTrait::rechunk`: the same column stored in one piece. What was
/// stored in several pieces is stored anew, from the start of its buffers;
/// what was stored in one stays as it is. The engine panics on a column that
/// is stored in none.
#[verifier::external_body]
pub(crate) fn series_rechunk(s: &Series) -> (r: Series)
    requires
        series_chunks(*s) >= 1,
    ensures
        series_name(r) == series_name(*s),
        series_dtype(r) == series_dtype(*s),
        series_cells(r) == series_cells(*s),
        series_chunks(r) == 1,
        series_chunks(*s) >= 2 ==> series_is_compact(r),
{
    s.rechunk()
}

/// `SeriesTrait::head` with a length: the first `length` cells, or all of
/// them if the column is shorter. The first piece of the column gives one
/// of the result, if only an empty one.
#[verifier::external_body]
pub(crate) fn series_head(s: &Series, length: usize) -> (r: Series)
    ensures
        series_dtype(r) == series_dtype(*s),
        series_cells(r) == head_cells(series_cells(*s), length as nat),
        series_chunks(*s) >= 1 ==> series_chunks(r) >= 1,
{
    s.head(Some(length))
}

/// `SeriesTrait::tail` with a length: the last `length` cells, or all of them
/// if the column is shorter.
#[verifier::external_body]
pub(crate) fn series_tail(s: &Series, length: usize) -> (r: Series)
    ensures
        series_dtype(r) == series_dtype(*s),
        series_cells(r) == tail_cells(series_cells(*s), length as nat),
{
    s.tail(Some(length))
}

/// `SeriesTrait::slice`: `length` cells from `offset` on, a negative offset
/// counted from the end, cut to what the column has. The engine negates the
/// offset, so the least `i64` is left out.
#[verifier::external_body]
pub(crate) fn series_slice(s: &Series, offset: i64, length: usize) -> (r: Series)
    requires
        offset > i64::MIN,
    ensures
        series_dtype(r) == series_dtype(*s),
        series_cells(r) == slice_cells(series_cells(*s), offset as int, length as nat),
{
    s.slice(offset, length)
}

/// `SeriesTrait::reverse`: the cells in reverse order.
#[verifier::external_body]
pub(crate) fn series_reverse(s: &Series) -> (r: Series)
    ensures
        series_dtype(r) == series_dtype(*s),
        series_cells(r) == reverse_cells(series_cells(*s)),
{
    s.reverse()
}

/// `SeriesTrait::shift`: the cells moved by `periods` positions, nulls moved
/// in.
#[verifier::external_body]
pub(crate) fn series_shift(s: &Series, periods: i64) -> (r: Series)
    ensures
        series_dtype(r) == series_dtype(*s),
        series_cells(r) == shift_cells(series_cells(*s), periods as int),
{
    s.shift(periods)
}

/// `SeriesTrait::take_every`: every `n`-th cell from the first on. The engine
/// steps through an iterator by `n` and panics on a step of 0.
#[verifier::external_body]
pub(crate) fn series_take_every(s: &Series, n: usize) -> (r: Series)
    requires
        n > 0,
    ensures
        series_dtype(r) == series_dtype(*s),
        series_cells(r) == every_nth_cells(series_cells(*s), n as nat),
{
    s.take_every(n)
}

/// `Series::append` on a clone of the first column: the cells of the second
/// after those of the first, and its pieces after those of the first; the one
/// piece of an empty first column gives way to them. The engine accepts two
/// columns of one dtype.
#[verifier::external_body]
pub(crate) fn series_append(a: &Series, b: &Series) -> (r: Result<Series, PolarsError>)
    requires
        series_dtype(*a) is Some,
        series_dtype(*a) == series_dtype(*b),
    ensures
        r is Ok,
        series_name(r.unwrap()) == series_name(*a),
        series_dtype(r.unwrap()) == series_dtype(*a),
        series_cells(r.unwrap()) == series_cells(*a) + series_cells(*b),
        series_chunks(r.unwrap()) == joined_chunks(
            series_chunks(*a),
            series_cells(*a).len(),
            series_chunks(*b),
        ),
{
    let mut s = a.clone();
    s.append(b)?;
    Ok(s)
}

/// `SeriesTrait::is_null`: a Boolean column that tells where the nulls are.
#[verifier::external_body]
pub(crate) fn series_is_null(s: &Series) -> (r: Series)
    requires
        series_dtype(*s) is Some,
    ensures
        series_dtype(r) == Some(Dtype::Boolean),
        series_cells(r) == is_null_cells(series_cells(*s)),
{
    s.is_null().into_series()
}

/// `SeriesTrait::is_not_null`: a Boolean column that tells where the values
/// are.
#[verifier::external_body]
pub(crate) fn series_is_not_null(s: &Series) -> (r: Series)
    requires
        series_dtype(*s) is Some,
    ensures
        series_dtype(r) == Some(Dtype::Boolean),
        series_cells(r) == is_not_null_cells(series_cells(*s)),
{
    s.is_not_null().into_series()
}

/// `SeriesTrait::drop_nulls`: the cells that are not null, in order.
#[verifier::external_body]
pub(crate) fn series_drop_nulls(s: &Series) -> (r: Series)
    requires
        series_dtype(*s) is Some,
    ensures
        series_name(r) == series_name(*s),
        series_dtype(r) == series_dtype(*s),
        series_cells(r) == drop_null_cells(series_cells(*s)),
{
    s.drop_nulls()
}

/// `SeriesTrait::filter` by a Boolean column of the same length: the cells
/// where the mask holds `true`; a null in the mask counts as `false`.
/// The engine may join the pieces of a column, and panics if there is none.
#[verifier::external_body]
pub(crate) fn series_filter(s: &Series, mask: &Series) -> (r: Result<Series, PolarsError>)
    requires
        series_chunks(*s) >= 1,
        series_chunks(*mask) >= 1,
        series_dtype(*s) is Some,
        series_dtype(*mask) == Some(Dtype::Boolean),
        series_cells(*s).len() == series_cells(*mask).len(),
    ensures
        r is Ok,
        series_name(r.unwrap()) == series_name(*s),
        series_dtype(r.unwrap()) == series_dtype(*s),
        series_cells(r.unwrap()) == filter_cells(series_cells(*s), series_cells(*mask)),
{
    s.filter(mask.bool()?)
}

/// `SeriesTrait::take` by positions: the cells at the positions, in their
/// order. Every position lies inside the column. For no positions the engine
/// makes an empty column anew.
#[verifier::external_body]
pub(crate) fn series_take(s: &Series, indices: &Vec<u32>) -> (r: Series)
    requires
        series_dtype(*s) is Some,
        forall|i: int| 0 <= i < indices@.len() ==> indices@[i] < series_cells(*s).len(),
    ensures
        series_name(r) == series_name(*s),
        series_dtype(r) == series_dtype(*s),
        series_cells(r) == gather_cells(series_cells(*s), indices@),
        indices@.len() == 0 ==> series_is_compact(r),
        indices@.len() == 0 ==> series_chunks(r) == 1,
{
    s.take(&UInt32Chunked::new_from_slice("idx", indices.as_slice()))
}

/// `SeriesTrait::arg_true` of a Boolean column, handed out as a vector: the
/// positions that hold `true`, ascending. The engine counts the positions in
/// 32 bits.
#[verifier::external_body]
pub(crate) fn series_arg_true(s: &Series) -> (r: Result<Vec<u32>, PolarsError>)
    requires
        series_dtype(*s) == Some(Dtype::Boolean),
        series_cells(*s).len() <= u32::MAX,
    ensures
        r is Ok,
        r.unwrap()@.len() == true_positions(series_cells(*s)).len(),
        forall|i: int|
            0 <= i < r.unwrap()@.len() ==> r.unwrap()@[i] == true_positions(series_cells(*s))[i],
{
    Ok(s.arg_true()?.into_no_null_iter().collect())
}

/// `Not` of a Boolean column: each value negated, nulls kept.
#[verifier::external_body]
pub(crate) fn series_not(s: &Series) -> (r: Result<Series, PolarsError>)
    requires
        series_dtype(*s) == Some(Dtype::Boolean),
    ensures
        r is Ok,
        series_name(r.unwrap()) == series_name(*s),
        series_dtype(r.unwrap()) == Some(Dtype::Boolean),
        series_cells(r.unwrap()) == not_cells(series_cells(*s)),
{
    Ok((!s.bool()?).into_series())
}

/// `SeriesTrait::cast_with_dtype`: the column converted value by value to
/// another dtype, under the same name. The pairs left out are those that the
/// engine refuses, and those between floats and dates, where it panics on a
/// float without an integer counterpart. Between the two dtypes of dates it
/// misplaces the nulls of a column that is not compact.
#[verifier::external_body]
pub(crate) fn series_cast(s: &Series, to: Dtype) -> (r: Result<Series, PolarsError>)
    requires
        series_dtype(*s) is Some,
        castable(series_dtype(*s).unwrap(), to),
        series_is_compact(*s),
    ensures
        r is Ok,
        series_name(r.unwrap()) == series_name(*s),
        series_dtype(r.unwrap()) == Some(to),
        series_cells(r.unwrap()).len() == series_cells(*s).len(),
        to == Dtype::Float64 && series_dtype(*s) != Some(Dtype::Utf8) ==> forall|i: int|
            0 <= i < series_cells(*s).len() ==> (#[trigger] series_cells(r.unwrap())[i] is Null
                <==> series_cells(*s)[i] is Null),
        forall|i: int|
            0 <= i < series_cells(*s).len() ==> #[trigger] series_cells(r.unwrap())[i] == match known_cast(
                series_dtype(*s).unwrap(),
                to,
                series_cells(*s)[i],
            ) {
                Some(cell) => cell,
                None => cast_value(series_dtype(*s).unwrap(), to, series_cells(*s)[i]),
            },
{
    s.cast_with_dtype(
        &match to {
            Dtype::Boolean => DataType::Boolean,
            Dtype::Int64 => DataType::Int64,
            Dtype::Float64 => DataType::Float64,
            Dtype::Utf8 => DataType::Utf8,
            Dtype::Date32 => DataType::Date32,
            Dtype::Date64 => DataType::Date64,
        },
    )
}

/// `SeriesTrait::min_as_series` of a column of integers, dates or floats: one
/// cell with the least value, nulls ignored; null if there is no value.
#[verifier::external_body]
pub(crate) fn series_min(s: &Series) -> (r: Series)
    requires
        series_dtype(*s) is Some,
        series_dtype(*s).unwrap().is_integral() || series_dtype(*s) == Some(Dtype::Float64),
    ensures
        series_dtype(r) == series_dtype(*s),
        is_extreme_summary(series_cells(r), series_cells(*s), series_dtype(*s).unwrap(), true),
{
    s.min_as_series()
}

/// `SeriesTrait::max_as_series` of a column of integers, dates or floats: one
/// cell with the greatest value, nulls ignored; null if there is no value.
#[verifier::external_body]
pub(crate) fn series_max(s: &Series) -> (r: Series)
    requires
        series_dtype(*s) is Some,
        series_dtype(*s).unwrap().is_integral() || series_dtype(*s) == Some(Dtype::Float64),
    ensures
        series_dtype(r) == series_dtype(*s),
        is_extreme_summary(series_cells(r), series_cells(*s), series_dtype(*s).unwrap(), false),
{
    s.max_as_series()
}

/// `SeriesTrait::sum_as_series` of a compact Float64 column: one cell with
/// the sum of the values, added one after the other to zero; null if there
/// is no value. Of a column in pieces the engine adds up the sums of the
/// pieces.
#[verifier::external_body]
pub(crate) fn series_sum(s: &Series) -> (r: Series)
    requires
        series_dtype(*s) == Some(Dtype::Float64),
        series_is_compact(*s),
    ensures
        series_dtype(r) == Some(Dtype::Float64),
        is_summary(
            series_cells(r),
            series_cells(*s),
            Cell::Float(float_sum_cells(series_cells(*s))),
        ),
{
    s.sum_as_series()
}

/// `SeriesTrait::mean_as_series` of a compact Float64 column: one cell with
/// the sum of the values divided by their number; null if there is no
/// value.
#[verifier::external_body]
pub(crate) fn series_mean(s: &Series) -> (r: Series)
    requires
        series_dtype(*s) == Some(Dtype::Float64),
        series_is_compact(*s),
    ensures
        series_dtype(r) == Some(Dtype::Float64),
        is_summary(
            series_cells(r),
            series_cells(*s),
            Cell::Float(
                float_mean(float_sum_cells(series_cells(*s)), value_count(series_cells(*s))),
            ),
        ),
{
    s.mean_as_series()
}

/// `SeriesTrait::var_as_series` of a compact Float64 column: one cell with
/// the variance of the values; null if there is no value. The engine
/// squares with a power function whose last bits the machine decides, so
/// nothing is said of the float.
#[verifier::external_body]
pub(crate) fn series_var(s: &Series) -> (r: Series)
    requires
        series_dtype(*s) == Some(Dtype::Float64),
        series_is_compact(*s),
    ensures
        series_dtype(r) == Some(Dtype::Float64),
        is_float_summary(series_cells(r), series_cells(*s)),
{
    s.var_as_series()
}

/// `SeriesTrait::std_as_series` of a compact Float64 column: one cell with
/// the standard deviation of the values; null if there is no value. It is
/// the root of the variance, so nothing is said of the float.
#[verifier::external_body]
pub(crate) fn series_std(s: &Series) -> (r: Series)
    requires
        series_dtype(*s) == Some(Dtype::Float64),
        series_is_compact(*s),
    ensures
        series_dtype(r) == Some(Dtype::Float64),
        is_float_summary(series_cells(r), series_cells(*s)),
{
    s.std_as_series()
}

/// `SeriesTrait::rolling_sum` without weights, over integers or floats: at
/// each position the sum of the window that ends there, or null where the
/// window yields nothing. The engine keeps the window in a buffer of
/// `window_size` slots that it indexes by a 32-bit count modulo
/// `window_size`, refuses `min_periods` above `window_size`, and adds
/// integers unchecked, in the order of the buffer.
#[verifier::external_body]
pub(crate) fn series_rolling_sum(
    s: &Series,
    window_size: u32,
    ignore_null: bool,
    min_periods: u32,
) -> (r: Result<Series, PolarsError>)
    requires
        series_dtype(*s) == Some(Dtype::Int64) || series_dtype(*s) == Some(Dtype::Float64),
        0 < window_size,
        min_periods <= window_size,
        series_cells(*s).len() <= u32::MAX,
        series_dtype(*s) == Some(Dtype::Int64) ==> sums_fit(series_cells(*s)),
    ensures
        r is Ok,
        series_dtype(r.unwrap()) == series_dtype(*s),
        series_dtype(*s) == Some(Dtype::Int64) ==> series_cells(r.unwrap()) == rolling_cells(
            Rolling::Sum,
            series_cells(*s),
            window_size as nat,
            ignore_null,
            min_periods as nat,
        ),
        series_dtype(*s) == Some(Dtype::Float64) ==> is_float_rolling(
            series_cells(r.unwrap()),
            series_cells(*s),
            window_size as nat,
            ignore_null,
            min_periods as nat,
        ),
        series_dtype(*s) == Some(Dtype::Float64) ==> series_cells(r.unwrap()) == float_rolling_sum(
            series_cells(*s),
            window_size as nat,
            ignore_null,
            min_periods as nat,
        ),
{
    s.rolling_sum(window_size, None, ignore_null, min_periods)
}

/// `SeriesTrait::rolling_min` without weights, over integers or floats: at
/// each position the least value of the window that ends there, or null
/// where the window yields nothing.
#[verifier::external_body]
pub(crate) fn series_rolling_min(
    s: &Series,
    window_size: u32,
    ignore_null: bool,
    min_periods: u32,
) -> (r: Result<Series, PolarsError>)
    requires
        series_dtype(*s) == Some(Dtype::Int64) || series_dtype(*s) == Some(Dtype::Float64),
        0 < window_size,
        min_periods <= window_size,
        series_cells(*s).len() <= u32::MAX,
    ensures
        r is Ok,
        series_dtype(r.unwrap()) == series_dtype(*s),
        series_dtype(*s) == Some(Dtype::Int64) ==> series_cells(r.unwrap()) == rolling_cells(
            Rolling::Min,
            series_cells(*s),
            window_size as nat,
            ignore_null,
            min_periods as nat,
        ),
        series_dtype(*s) == Some(Dtype::Float64) ==> is_float_rolling(
            series_cells(r.unwrap()),
            series_cells(*s),
            window_size as nat,
            ignore_null,
            min_periods as nat,
        ),
        series_dtype(*s) == Some(Dtype::Float64) ==> series_cells(r.unwrap()) == float_rolling_min(
            series_cells(*s),
            window_size as nat,
            ignore_null,
            min_periods as nat,
        ),
{
    s.rolling_min(window_size, None, ignore_null, min_periods)
}

/// `SeriesTrait::rolling_max` without weights, over integers or floats: at
/// each position the greatest value of the window that ends there, or null
/// where the window yields nothing.
#[verifier::external_body]
pub(crate) fn series_rolling_max(
    s: &Series,
    window_size: u32,
    ignore_null: bool,
    min_periods: u32,
) -> (r: Result<Series, PolarsError>)
    requires
        series_dtype(*s) == Some(Dtype::Int64) || series_dtype(*s) == Some(Dtype::Float64),
        0 < window_size,
        min_periods <= window_size,
        series_cells(*s).len() <= u32::MAX,
    ensures
        r is Ok,
        series_dtype(r.unwrap()) == series_dtype(*s),
        series_dtype(*s) == Some(Dtype::Int64) ==> series_cells(r.unwrap()) == rolling_cells(
            Rolling::Max,
            series_cells(*s),
            window_size as nat,
            ignore_null,
            min_periods as nat,
        ),
        series_dtype(*s) == Some(Dtype::Float64) ==> is_float_rolling(
            series_cells(r.unwrap()),
            series_cells(*s),
            window_size as nat,
            ignore_null,
            min_periods as nat,
        ),
        series_dtype(*s) == Some(Dtype::Float64) ==> series_cells(r.unwrap()) == float_rolling_max(
            series_cells(*s),
            window_size as nat,
            ignore_null,
            min_periods as nat,
        ),
{
    s.rolling_max(window_size, None, ignore_null, min_periods)
}

/// `SeriesTrait::rolling_mean` without weights, over floats: at each position
/// the sum of the window that ends there, divided by the number of its
/// values, or null where the window yields nothing. The engine panics where
/// it would divide by a number of 0, which a window that needs no value can
/// have.
#[verifier::external_body]
pub(crate) fn series_rolling_mean(
    s: &Series,
    window_size: u32,
    ignore_null: bool,
    min_periods: u32,
) -> (r: Result<Series, PolarsError>)
    requires
        series_dtype(*s) == Some(Dtype::Float64),
        0 < min_periods <= window_size,
        series_cells(*s).len() <= u32::MAX,
    ensures
        r is Ok,
        series_dtype(r.unwrap()) == Some(Dtype::Float64),
        is_float_rolling(
            series_cells(r.unwrap()),
            series_cells(*s),
            window_size as nat,
            ignore_null,
            min_periods as nat,
        ),
        series_cells(r.unwrap()) == float_rolling_mean(
            series_cells(*s),
            window_size as nat,
            ignore_null,
            min_periods as nat,
        ),
{
    s.rolling_mean(window_size, None, ignore_null, min_periods)
}

/// `ChunkCompare::eq` on two columns of one dtype and one length: whether
/// the left value equals the right, position by position; null where either is null. The engine
/// takes a right side of one cell for a single value: such columns are left
/// out. Floats are compared as IEEE 754 says.
/// The engine may join the pieces of a column, and panics if there is none.
#[verifier::external_body]
pub(crate) fn series_eq(a: &Series, b: &Series) -> (r: Series)
    requires
        series_chunks(*a) >= 1,
        series_chunks(*b) >= 1,
        series_dtype(*a) is Some,
        series_dtype(*a) == series_dtype(*b),
        series_cells(*a).len() == series_cells(*b).len(),
        series_cells(*a).len() != 1,
    ensures
        series_dtype(r) == Some(Dtype::Boolean),
        series_cells(r) == compare_cells(Comparison::Eq, series_cells(*a), series_cells(*b)),
        forall|i: int|
            0 <= i < series_cells(*a).len() ==> match (series_cells(*a)[i], series_cells(*b)[i]) {
                (Cell::Float(x), Cell::Float(y)) => #[trigger] series_cells(r)[i] == Cell::Bool(
                    float_equal(x, y),
                ),
                _ => true,
            },
{
    a.eq(b).into_series()
}

/// `ChunkCompare::neq` on two columns of one dtype and one length: whether
/// the left value differs from the right, position by position; null where either is null. The engine
/// takes a right side of one cell for a single value: such columns are left
/// out. Floats are compared as IEEE 754 says.
/// The engine may join the pieces of a column, and panics if there is none.
#[verifier::external_body]
pub(crate) fn series_neq(a: &Series, b: &Series) -> (r: Series)
    requires
        series_chunks(*a) >= 1,
        series_chunks(*b) >= 1,
        series_dtype(*a) is Some,
        series_dtype(*a) == series_dtype(*b),
        series_cells(*a).len() == series_cells(*b).len(),
        series_cells(*a).len() != 1,
    ensures
        series_dtype(r) == Some(Dtype::Boolean),
        series_cells(r) == compare_cells(Comparison::Neq, series_cells(*a), series_cells(*b)),
{
    a.neq(b).into_series()
}

/// `ChunkCompare::gt` on two columns of one dtype and one length: whether
/// the left value is greater than the right, position by position; null where either is null. The engine
/// takes a right side of one cell for a single value: such columns are left
/// out. Floats are compared as IEEE 754 says.
/// The engine may join the pieces of a column, and panics if there is none.
#[verifier::external_body]
pub(crate) fn series_gt(a: &Series, b: &Series) -> (r: Series)
    requires
        series_chunks(*a) >= 1,
        series_chunks(*b) >= 1,
        series_dtype(*a) is Some,
        series_dtype(*a) == series_dtype(*b),
        series_cells(*a).len() == series_cells(*b).len(),
        series_cells(*a).len() != 1,
    ensures
        series_dtype(r) == Some(Dtype::Boolean),
        series_cells(r) == compare_cells(Comparison::Gt, series_cells(*a), series_cells(*b)),
{
    a.gt(b).into_series()
}

/// `ChunkCompare::gt_eq` on two columns of one dtype and one length: whether
/// the left value is at least the right, position by position; null where either is null. The engine
/// takes a right side of one cell for a single value: such columns are left
/// out. Floats are compared as IEEE 754 says.
/// The engine may join the pieces of a column, and panics if there is none.
#[verifier::external_body]
pub(crate) fn series_gt_eq(a: &Series, b: &Series) -> (r: Series)
    requires
        series_chunks(*a) >= 1,
        series_chunks(*b) >= 1,
        series_dtype(*a) is Some,
        series_dtype(*a) == series_dtype(*b),
        series_cells(*a).len() == series_cells(*b).len(),
        series_cells(*a).len() != 1,
    ensures
        series_dtype(r) == Some(Dtype::Boolean),
        series_cells(r) == compare_cells(Comparison::GtEq, series_cells(*a), series_cells(*b)),
{
    a.gt_eq(b).into_series()
}

/// `ChunkCompare::lt` on two columns of one dtype and one length: whether
/// the left value is less than the right, position by position; null where either is null. The engine
/// takes a right side of one cell for a single value: such columns are left
/// out. Floats are compared as IEEE 754 says.
/// The engine may join the pieces of a column, and panics if there is none.
#[verifier::external_body]
pub(crate) fn series_lt(a: &Series, b: &Series) -> (r: Series)
    requires
        series_chunks(*a) >= 1,
        series_chunks(*b) >= 1,
        series_dtype(*a) is Some,
        series_dtype(*a) == series_dtype(*b),
        series_cells(*a).len() == series_cells(*b).len(),
        series_cells(*a).len() != 1,
    ensures
        series_dtype(r) == Some(Dtype::Boolean),
        series_cells(r) == compare_cells(Comparison::Lt, series_cells(*a), series_cells(*b)),
        forall|i: int|
            0 <= i < series_cells(*a).len() ==> match (series_cells(*a)[i], series_cells(*b)[i]) {
                (Cell::Float(x), Cell::Float(y)) => #[trigger] series_cells(r)[i] == Cell::Bool(
                    float_less(x, y),
                ),
                _ => true,
            },
{
    a.lt(b).into_series()
}

/// `ChunkCompare::lt_eq` on two columns of one dtype and one length: whether
/// the left value is at most the right, position by position; null where either is null. The engine
/// takes a right side of one cell for a single value: such columns are left
/// out. Floats are compared as IEEE 754 says.
/// The engine may join the pieces of a column, and panics if there is none.
#[verifier::external_body]
pub(crate) fn series_lt_eq(a: &Series, b: &Series) -> (r: Series)
    requires
        series_chunks(*a) >= 1,
        series_chunks(*b) >= 1,
        series_dtype(*a) is Some,
        series_dtype(*a) == series_dtype(*b),
        series_cells(*a).len() == series_cells(*b).len(),
        series_cells(*a).len() != 1,
    ensures
        series_dtype(r) == Some(Dtype::Boolean),
        series_cells(r) == compare_cells(Comparison::LtEq, series_cells(*a), series_cells(*b)),
{
    a.lt_eq(b).into_series()
}

/// `Add` of two Float64 columns of one length: the sums, position by
/// position; null where either is null.
/// The engine may join the pieces of a column, and panics if there is none.
#[verifier::external_body]
pub(crate) fn series_add(a: &Series, b: &Series) -> (r: Series)
    requires
        series_chunks(*a) >= 1,
        series_chunks(*b) >= 1,
        series_dtype(*a) == Some(Dtype::Float64),
        series_dtype(*b) == Some(Dtype::Float64),
        series_cells(*a).len() == series_cells(*b).len(),
    ensures
        series_name(r) == series_name(*a),
        series_dtype(r) == Some(Dtype::Float64),
        series_cells(r).len() == series_cells(*a).len(),
        forall|i: int|
            0 <= i < series_cells(*a).len() ==> #[trigger] series_cells(r)[i] == match (
                series_cells(*a)[i],
                series_cells(*b)[i],
            ) {
                (Cell::Float(x), Cell::Float(y)) => Cell::Float(float_add(x, y)),
                _ => Cell::Null,
            },
{
    a + b
}

/// `Sub` of two Float64 columns of one length: the differences, position by
/// position; null where either is null.
/// The engine may join the pieces of a column, and panics if there is none.
#[verifier::external_body]
pub(crate) fn series_sub(a: &Series, b: &Series) -> (r: Series)
    requires
        series_chunks(*a) >= 1,
        series_chunks(*b) >= 1,
        series_dtype(*a) == Some(Dtype::Float64),
        series_dtype(*b) == Some(Dtype::Float64),
        series_cells(*a).len() == series_cells(*b).len(),
    ensures
        series_name(r) == series_name(*a),
        series_dtype(r) == Some(Dtype::Float64),
        series_cells(r).len() == series_cells(*a).len(),
        forall|i: int|
            0 <= i < series_cells(*a).len() ==> #[trigger] series_cells(r)[i] == match (
                series_cells(*a)[i],
                series_cells(*b)[i],
            ) {
                (Cell::Float(x), Cell::Float(y)) => Cell::Float(float_sub(x, y)),
                _ => Cell::Null,
            },
{
    a - b
}

/// `Mul` of two Float64 columns of one length: the products, position by
/// position; null where either is null.
/// The engine may join the pieces of a column, and panics if there is none.
#[verifier::external_body]
pub(crate) fn series_mul(a: &Series, b: &Series) -> (r: Series)
    requires
        series_chunks(*a) >= 1,
        series_chunks(*b) >= 1,
        series_dtype(*a) == Some(Dtype::Float64),
        series_dtype(*b) == Some(Dtype::Float64),
        series_cells(*a).len() == series_cells(*b).len(),
    ensures
        series_name(r) == series_name(*a),
        series_dtype(r) == Some(Dtype::Float64),
        series_cells(r).len() == series_cells(*a).len(),
        forall|i: int|
            0 <= i < series_cells(*a).len() ==> #[trigger] series_cells(r)[i] == match (
                series_cells(*a)[i],
                series_cells(*b)[i],
            ) {
                (Cell::Float(x), Cell::Float(y)) => Cell::Float(float_mul(x, y)),
                _ => Cell::Null,
            },
{
    a * b
}

/// `Div` of two Float64 columns of one length: the quotients, position by
/// position; null where either is null. The engine panics
/// where it would divide a value by a zero.
/// The engine may join the pieces of a column, and panics if there is none.
#[verifier::external_body]
pub(crate) fn series_div(a: &Series, b: &Series) -> (r: Series)
    requires
        series_chunks(*a) >= 1,
        series_chunks(*b) >= 1,
        series_dtype(*a) == Some(Dtype::Float64),
        series_dtype(*b) == Some(Dtype::Float64),
        series_cells(*a).len() == series_cells(*b).len(),
        !divides_by_zero(series_cells(*a), series_cells(*b)),
    ensures
        series_name(r) == series_name(*a),
        series_dtype(r) == Some(Dtype::Float64),
        series_cells(r).len() == series_cells(*a).len(),
        forall|i: int|
            0 <= i < series_cells(*a).len() ==> #[trigger] series_cells(r)[i] == match (
                series_cells(*a)[i],
                series_cells(*b)[i],
            ) {
                (Cell::Float(x), Cell::Float(y)) => Cell::Float(float_div(x, y)),
                _ => Cell::Null,
            },
{
    a / b
}

/// `SeriesTrait::fill_none`: the column with its nulls replaced, by the last
/// or the next value, or by the least, the greatest or the mean value of the
/// column. Left out are strategies that the engine refuses for the dtype, a
/// column without a value to take the least, the greatest or the mean of,
/// the least value of booleans of which none is `false` (the engine gives
/// `false`), and a mean of integers whose sum the engine may not be able to
/// add up or to convert. The mean of floats is that of a compact column.
#[verifier::external_body]
pub(crate) fn series_fill(s: &Series, strategy: FillStrategy) -> (r: Result<Series, PolarsError>)
    requires
        series_dtype(*s) is Some,
        fillable(strategy, series_dtype(*s).unwrap(), series_cells(*s)),
        strategy == FillStrategy::Mean && series_dtype(*s) == Some(Dtype::Float64)
            ==> series_is_compact(*s),
    ensures
        r is Ok,
        series_dtype(r.unwrap()) == series_dtype(*s),
        strategy == FillStrategy::Forward ==> series_cells(r.unwrap()) == fill_forward_cells(
            series_cells(*s),
        ),
        strategy == FillStrategy::Backward ==> series_cells(r.unwrap()) == fill_backward_cells(
            series_cells(*s),
        ),
        strategy == FillStrategy::Min && series_dtype(*s) == Some(Dtype::Float64)
            ==> is_float_extreme_fill(series_cells(r.unwrap()), series_cells(*s), true),
        strategy == FillStrategy::Max && series_dtype(*s) == Some(Dtype::Float64)
            ==> is_float_extreme_fill(series_cells(r.unwrap()), series_cells(*s), false),
        strategy == FillStrategy::Mean && series_dtype(*s) == Some(Dtype::Float64) ==> series_cells(
            r.unwrap(),
        ) == fill_with(
            series_cells(*s),
            Cell::Float(
                float_mean(float_sum_cells(series_cells(*s)), value_count(series_cells(*s))),
            ),
        ),
        strategy == FillStrategy::Min && series_dtype(*s) != Some(Dtype::Float64)
            ==> is_extreme_fill(
            series_cells(r.unwrap()),
            series_cells(*s),
            series_dtype(*s).unwrap(),
            true,
        ),
        strategy == FillStrategy::Max && series_dtype(*s) != Some(Dtype::Float64)
            ==> is_extreme_fill(
            series_cells(r.unwrap()),
            series_cells(*s),
            series_dtype(*s).unwrap(),
            false,
        ),
        strategy == FillStrategy::Mean && series_dtype(*s) == Some(Dtype::Int64) ==> series_cells(
            r.unwrap(),
        ) == fill_with(
            series_cells(*s),
            Cell::Int(
                int_mean(
                    sum_cells(series_cells(*s)),
                    series_cells(*s).len() - null_count(series_cells(*s)),
                ),
            ),
        ),
{
    s.fill_none(
        match strategy {
            FillStrategy::Backward => FillNoneStrategy::Backward,
            FillStrategy::Forward => FillNoneStrategy::Forward,
            FillStrategy::Min => FillNoneStrategy::Min,
            FillStrategy::Max => FillNoneStrategy::Max,
            FillStrategy::Mean => FillNoneStrategy::Mean,
        },
    )
}

/// `SeriesTrait::unique`: each distinct cell once, null among them if the
/// column has one, in an order that the engine's hashing decides.
#[verifier::external_body]
pub(crate) fn series_unique(s: &Series) -> (r: Result<Series, PolarsError>)
    requires
        series_dtype(*s) is Some,
    ensures
        r is Ok,
        series_dtype(r.unwrap()) == series_dtype(*s),
        is_distinct_copy(series_cells(r.unwrap()), series_cells(*s)),
{
    s.unique()
}

/// `SeriesTrait::n_unique`: the number of distinct cells, null counted as
/// one of them.
#[verifier::external_body]
pub(crate) fn series_n_unique(s: &Series) -> (r: Result<usize, PolarsError>)
    requires
        series_dtype(*s) is Some,
    ensures
        r is Ok,
        r.unwrap() == series_cells(*s).to_set().len(),
{
    s.n_unique()
}

/// `SeriesTrait::is_unique`: a Boolean column that tells which cells occur
/// only once. The engine counts the positions in 32 bits.
#[verifier::external_body]
pub(crate) fn series_is_unique(s: &Series) -> (r: Result<Series, PolarsError>)
    requires
        series_dtype(*s) is Some,
        series_cells(*s).len() <= u32::MAX,
    ensures
        r is Ok,
        series_dtype(r.unwrap()) == Some(Dtype::Boolean),
        series_cells(r.unwrap()) == is_unique_cells(series_cells(*s)),
{
    Ok(s.is_unique()?.into_series())
}

/// `SeriesTrait::is_duplicated`: a Boolean column that tells which cells
/// occur more than once. The engine counts the positions in 32 bits.
#[verifier::external_body]
pub(crate) fn series_is_duplicated(s: &Series) -> (r: Result<Series, PolarsError>)
    requires
        series_dtype(*s) is Some,
        series_cells(*s).len() <= u32::MAX,
    ensures
        r is Ok,
        series_dtype(r.unwrap()) == Some(Dtype::Boolean),
        series_cells(r.unwrap()) == is_duplicated_cells(series_cells(*s)),
{
    Ok(s.is_duplicated()?.into_series())
}

/// `Series::new` on optional string slices: a Utf8 column with the given
/// name, null where the input is `None`.
#[verifier::external_body]
pub(crate) fn series_of_strs(name: &str, values: &Vec<Option<&str>>) -> (s: Series)
    ensures
        series_name(s) == name@,
        series_dtype(s) == Some(Dtype::Utf8),
        series_cells(s).len() == values@.len(),
        forall|i: int|
            0 <= i < values@.len() ==> #[trigger] series_cells(s)[i] == match values@[i] {
                Some(text) => Cell::Str(text@),
                None => Cell::Null,
            },
{
    Series::new(name, values.as_slice())
}

/// `Utf8Chunked::str_lengths`, handed out as a vector: the number of bytes
/// of each string in UTF-8, as far as it fits in 32 bits; `None` for a null.
#[verifier::external_body]
pub(crate) fn series_str_lengths(s: &Series) -> (r: Result<Vec<Option<u32>>, PolarsError>)
    requires
        series_dtype(*s) == Some(Dtype::Utf8),
    ensures
        r is Ok,
        r.unwrap()@.len() == series_cells(*s).len(),
        forall|i: int|
            0 <= i < series_cells(*s).len() ==> match series_cells(*s)[i] {
                Cell::Str(text) => (#[trigger] r.unwrap()@[i]) is Some && (utf8_len(text)
                    <= u32::MAX ==> r.unwrap()@[i] == Some(utf8_len(text) as u32)),
                _ => r.unwrap()@[i] is None,
            },
{
    Ok(s.utf8()?.str_lengths().into_iter().collect())
}

/// `Utf8Chunked::contains`: a Boolean column that tells which strings the
/// regular expression matches; an error if the pattern is no valid regular
/// expression.
#[verifier::external_body]
pub(crate) fn series_str_contains(s: &Series, pat: &str) -> (r: Result<Series, PolarsError>)
    requires
        series_dtype(*s) == Some(Dtype::Utf8),
    ensures
        r is Ok <==> regex_is_valid(pat@),
        r is Ok ==> series_name(r.unwrap()) == series_name(*s) && series_dtype(r.unwrap()) == Some(
            Dtype::Boolean,
        ) && series_cells(r.unwrap()).len() == series_cells(*s).len(),
        r is Ok ==> forall|i: int|
            0 <= i < series_cells(*s).len() ==> #[trigger] series_cells(r.unwrap())[i]
                == match series_cells(*s)[i] {
                Cell::Str(text) => Cell::Bool(regex_is_match(pat@, text)),
                _ => Cell::Null,
            },
{
    Ok(s.utf8()?.contains(pat)?.into_series())
}

/// `Utf8Chunked::replace`: each string with the first match of the regular
/// expression replaced; an error if the pattern is no valid regular
/// expression.
#[verifier::external_body]
pub(crate) fn series_str_replace(s: &Series, pat: &str, val: &str) -> (r: Result<
    Series,
    PolarsError,
>)
    requires
        series_dtype(*s) == Some(Dtype::Utf8),
    ensures
        r is Ok <==> regex_is_valid(pat@),
        r is Ok ==> series_dtype(r.unwrap()) == Some(Dtype::Utf8) && series_cells(r.unwrap()).len()
            == series_cells(*s).len(),
        r is Ok ==> forall|i: int|
            0 <= i < series_cells(*s).len() ==> #[trigger] series_cells(r.unwrap())[i]
                == match series_cells(*s)[i] {
                Cell::Str(text) => Cell::Str(regex_replace(pat@, val@, text)),
                _ => Cell::Null,
            },
{
    Ok(s.utf8()?.replace(pat, val)?.into_series())
}

/// `Utf8Chunked::replace_all`: each string with every match of the regular
/// expression replaced; an error if the pattern is no valid regular
/// expression.
#[verifier::external_body]
pub(crate) fn series_str_replace_all(s: &Series, pat: &str, val: &str) -> (r: Result<
    Series,
    PolarsError,
>)
    requires
        series_dtype(*s) == Some(Dtype::Utf8),
    ensures
        r is Ok <==> regex_is_valid(pat@),
        r is Ok ==> series_dtype(r.unwrap()) == Some(Dtype::Utf8) && series_cells(r.unwrap()).len()
            == series_cells(*s).len(),
        r is Ok ==> forall|i: int|
            0 <= i < series_cells(*s).len() ==> #[trigger] series_cells(r.unwrap())[i]
                == match series_cells(*s)[i] {
                Cell::Str(text) => Cell::Str(regex_replace_all(pat@, val@, text)),
                _ => Cell::Null,
            },
{
    Ok(s.utf8()?.replace_all(pat, val)?.into_series())
}

/// `Utf8Chunked::to_uppercase`: each string in upper case.
#[verifier::external_body]
pub(crate) fn series_str_to_uppercase(s: &Series) -> (r: Result<Series, PolarsError>)
    requires
        series_dtype(*s) == Some(Dtype::Utf8),
    ensures
        r is Ok,
        series_dtype(r.unwrap()) == Some(Dtype::Utf8),
        series_cells(r.unwrap()).len() == series_cells(*s).len(),
        forall|i: int|
            0 <= i < series_cells(*s).len() ==> #[trigger] series_cells(r.unwrap())[i]
                == match series_cells(*s)[i] {
                Cell::Str(text) => Cell::Str(uppercase_of(text)),
                _ => Cell::Null,
            },
{
    Ok(s.utf8()?.to_uppercase().into_series())
}

/// `Utf8Chunked::to_lowercase`: each string in lower case.
#[verifier::external_body]
pub(crate) fn series_str_to_lowercase(s: &Series) -> (r: Result<Series, PolarsError>)
    requires
        series_dtype(*s) == Some(Dtype::Utf8),
    ensures
        r is Ok,
        series_dtype(r.unwrap()) == Some(Dtype::Utf8),
        series_cells(r.unwrap()).len() == series_cells(*s).len(),
        forall|i: int|
            0 <= i < series_cells(*s).len() ==> #[trigger] series_cells(r.unwrap())[i]
                == match series_cells(*s)[i] {
                Cell::Str(text) => Cell::Str(lowercase_of(text)),
                _ => Cell::Null,
            },
{
    Ok(s.utf8()?.to_lowercase().into_series())
}

/// `Utf8Chunked::as_date32` with a format: each string parsed as a date, in
/// days since the epoch; null where a string does not parse.
#[verifier::external_body]
pub(crate) fn series_parse_date32(s: &Series, fmt: &str) -> (r: Result<Series, PolarsError>)
    requires
        series_dtype(*s) == Some(Dtype::Utf8),
    ensures
        r is Ok,
        series_name(r.unwrap()) == series_name(*s),
        series_dtype(r.unwrap()) == Some(Dtype::Date32),
        series_cells(r.unwrap()).len() == series_cells(*s).len(),
        forall|i: int|
            0 <= i < series_cells(*s).len() ==> #[trigger] series_cells(r.unwrap())[i]
                == match series_cells(*s)[i] {
                Cell::Str(text) => match parsed_date32(fmt@, text) {
                    Some(days) => Cell::Int(days),
                    None => Cell::Null,
                },
                _ => Cell::Null,
            },
{
    Ok(s.utf8()?.as_date32(Some(fmt))?.into_series())
}

/// `Utf8Chunked::as_date64` with a format: each string parsed as a date and
/// time, in milliseconds since the epoch; null where a string does not
/// parse.
#[verifier::external_body]
pub(crate) fn series_parse_date64(s: &Series, fmt: &str) -> (r: Result<Series, PolarsError>)
    requires
        series_dtype(*s) == Some(Dtype::Utf8),
    ensures
        r is Ok,
        series_name(r.unwrap()) == series_name(*s),
        series_dtype(r.unwrap()) == Some(Dtype::Date64),
        series_cells(r.unwrap()).len() == series_cells(*s).len(),
        forall|i: int|
            0 <= i < series_cells(*s).len() ==> #[trigger] series_cells(r.unwrap())[i]
                == match series_cells(*s)[i] {
                Cell::Str(text) => match parsed_date64(fmt@, text) {
                    Some(millis) => Cell::Int(millis),
                    None => Cell::Null,
                },
                _ => Cell::Null,
            },
{
    Ok(s.utf8()?.as_date64(Some(fmt))?.into_series())
}

/// `Utf8Chunked::as_date32` without a format, on a column without nulls: the
/// format is the one that the engine knows the first string by; an error if
/// there is no string or if the engine knows it by none. Where the column
/// has nulls, how it is stored decides whether the engine finds its first
/// string.
#[verifier::external_body]
pub(crate) fn series_sniff_date32(s: &Series) -> (r: Result<Series, PolarsError>)
    requires
        series_dtype(*s) == Some(Dtype::Utf8),
        null_count(series_cells(*s)) == 0,
    ensures
        r is Ok <==> (first_text(series_cells(*s)) is Some && sniffed_format(
            first_text(series_cells(*s)).unwrap(),
        ) is Some),
        r is Ok ==> series_name(r.unwrap()) == series_name(*s) && series_dtype(r.unwrap()) == Some(
            Dtype::Date32,
        ) && series_cells(r.unwrap()).len() == series_cells(*s).len(),
        r is Ok ==> forall|i: int|
            0 <= i < series_cells(*s).len() ==> #[trigger] series_cells(r.unwrap())[i]
                == match series_cells(*s)[i] {
                Cell::Str(text) => match parsed_date32(
                    sniffed_format(first_text(series_cells(*s)).unwrap()).unwrap(),
                    text,
                ) {
                    Some(days) => Cell::Int(days),
                    None => Cell::Null,
                },
                _ => Cell::Null,
            },
{
    Ok(s.utf8()?.as_date32(None)?.into_series())
}

/// `Utf8Chunked::as_date64` without a format, on a column without nulls: the
/// format is the one that the engine knows the first string by; an error if
/// there is no string or if the engine knows it by none. Where the column
/// has nulls, how it is stored decides whether the engine finds its first
/// string.
#[verifier::external_body]
pub(crate) fn series_sniff_date64(s: &Series) -> (r: Result<Series, PolarsError>)
    requires
        series_dtype(*s) == Some(Dtype::Utf8),
        null_count(series_cells(*s)) == 0,
    ensures
        r is Ok <==> (first_text(series_cells(*s)) is Some && sniffed_format(
            first_text(series_cells(*s)).unwrap(),
        ) is Some),
        r is Ok ==> series_name(r.unwrap()) == series_name(*s) && series_dtype(r.unwrap()) == Some(
            Dtype::Date64,
        ) && series_cells(r.unwrap()).len() == series_cells(*s).len(),
        r is Ok ==> forall|i: int|
            0 <= i < series_cells(*s).len() ==> #[trigger] series_cells(r.unwrap())[i]
                == match series_cells(*s)[i] {
                Cell::Str(text) => match parsed_date64(
                    sniffed_format(first_text(series_cells(*s)).unwrap()).unwrap(),
                    text,
                ) {
                    Some(millis) => Cell::Int(millis),
                    None => Cell::Null,
                },
                _ => Cell::Null,
            },
{
    Ok(s.utf8()?.as_date64(None)?.into_series())
}

/// `SeriesTrait::cum_sum` of a column of integers or floats: at each
/// position the sum of the values up to and with it, or from it on if
/// `reverse` is set; null where the column has a null. The
/// engine adds integers unchecked.
/// The engine joins the pieces of the column, and panics if there is none.
#[verifier::external_body]
pub(crate) fn series_cum_sum(s: &Series, reverse: bool) -> (r: Series)
    requires
        series_chunks(*s) >= 1,
        series_dtype(*s) is Some,
        series_dtype(*s) == Some(Dtype::Float64) || (series_dtype(*s) == Some(Dtype::Int64) && sums_fit(
            series_cells(*s),
        )),
    ensures
        series_dtype(r) == series_dtype(*s),
        series_dtype(*s) != Some(Dtype::Float64) ==> series_cells(r) == running_cells(
            Rolling::Sum,
            series_cells(*s),
            reverse,
        ),
        series_dtype(*s) == Some(Dtype::Float64) ==> series_cells(r) == float_running_cells(
            Rolling::Sum,
            series_cells(*s),
            reverse,
        ),
{
    s.cum_sum(reverse)
}

/// `SeriesTrait::cum_max` of a column of integers, dates or floats: at each
/// position the greatest of the values up to and with it, or from it on if
/// `reverse` is set; null where the column has a null.
/// The engine joins the pieces of the column, and panics if there is none.
#[verifier::external_body]
pub(crate) fn series_cum_max(s: &Series, reverse: bool) -> (r: Series)
    requires
        series_chunks(*s) >= 1,
        series_dtype(*s) is Some,
        series_dtype(*s).unwrap().is_integral() || series_dtype(*s) == Some(Dtype::Float64),
    ensures
        series_dtype(r) == series_dtype(*s),
        series_dtype(*s) != Some(Dtype::Float64) ==> series_cells(r) == running_cells(
            Rolling::Max,
            series_cells(*s),
            reverse,
        ),
        series_dtype(*s) == Some(Dtype::Float64) ==> series_cells(r) == float_running_cells(
            Rolling::Max,
            series_cells(*s),
            reverse,
        ),
{
    s.cum_max(reverse)
}

/// `SeriesTrait::cum_min` of a column of integers, dates or floats: at each
/// position the least of the values up to and with it, or from it on if
/// `reverse` is set; null where the column has a null.
/// The engine joins the pieces of the column, and panics if there is none.
#[verifier::external_body]
pub(crate) fn series_cum_min(s: &Series, reverse: bool) -> (r: Series)
    requires
        series_chunks(*s) >= 1,
        series_dtype(*s) is Some,
        series_dtype(*s).unwrap().is_integral() || series_dtype(*s) == Some(Dtype::Float64),
    ensures
        series_dtype(r) == series_dtype(*s),
        series_dtype(*s) != Some(Dtype::Float64) ==> series_cells(r) == running_cells(
            Rolling::Min,
            series_cells(*s),
            reverse,
        ),
        series_dtype(*s) == Some(Dtype::Float64) ==> series_cells(r) == float_running_cells(
            Rolling::Min,
            series_cells(*s),
            reverse,
        ),
{
    s.cum_min(reverse)
}

/// `SeriesTrait::peak_max` of a column of integers, dates or floats: a Boolean
/// column that tells which values lie above both their neighbours, zero
/// taken for the neighbour that the first and the last value lack.
/// The engine joins the pieces of the column, and panics if there is none.
#[verifier::external_body]
pub(crate) fn series_peak_max(s: &Series) -> (r: Series)
    requires
        series_chunks(*s) >= 1,
        series_dtype(*s) is Some,
        series_dtype(*s).unwrap().is_integral() || series_dtype(*s) == Some(Dtype::Float64),
    ensures
        series_dtype(r) == Some(Dtype::Boolean),
        series_cells(r) == peak_cells(series_cells(*s), true, zero_of(series_dtype(*s).unwrap())),
{
    s.peak_max().into_series()
}

/// `SeriesTrait::peak_min` of a column of integers, dates or floats: a Boolean
/// column that tells which values lie below both their neighbours, zero
/// taken for the neighbour that the first and the last value lack.
/// The engine joins the pieces of the column, and panics if there is none.
#[verifier::external_body]
pub(crate) fn series_peak_min(s: &Series) -> (r: Series)
    requires
        series_chunks(*s) >= 1,
        series_dtype(*s) is Some,
        series_dtype(*s).unwrap().is_integral() || series_dtype(*s) == Some(Dtype::Float64),
    ensures
        series_dtype(r) == Some(Dtype::Boolean),
        series_cells(r) == peak_cells(series_cells(*s), false, zero_of(series_dtype(*s).unwrap())),
{
    s.peak_min().into_series()
}

/// `Series::zip_with` on two columns of one dtype and a Boolean mask without
/// nulls, all of one length: the cells of the first column where the mask
/// holds `true`, those of the second elsewhere. Under a null of the mask the
/// engine reads a bit that nothing fixes, and for dates it panics.
/// The engine may join the pieces of a column, and panics if there is none.
#[verifier::external_body]
pub(crate) fn series_zip_with(s: &Series, mask: &Series, other: &Series) -> (r: Result<
    Series,
    PolarsError,
>)
    requires
        series_chunks(*s) >= 1,
        series_chunks(*mask) >= 1,
        series_chunks(*other) >= 1,
        series_dtype(*s) is Some,
        series_dtype(*s) != Some(Dtype::Date32),
        series_dtype(*s) != Some(Dtype::Date64),
        series_dtype(*s) == series_dtype(*other),
        series_dtype(*mask) == Some(Dtype::Boolean),
        null_count(series_cells(*mask)) == 0,
        series_cells(*s).len() == series_cells(*mask).len(),
        series_cells(*other).len() == series_cells(*mask).len(),
    ensures
        r is Ok,
        series_name(r.unwrap()) == series_name(*s),
        series_dtype(r.unwrap()) == series_dtype(*s),
        series_cells(r.unwrap()) == zip_cells(
            series_cells(*s),
            series_cells(*mask),
            series_cells(*other),
        ),
{
    s.zip_with(mask.bool()?, other)
}

/// `Series::series_equal` on two columns of one dtype and one length, not
/// empty and without nulls or floats: whether each value equals the value
/// at its position in the other column. Two handles on one column the
/// engine takes for equal without looking at the values. It counts the equal
/// positions in 32 bits.
#[verifier::external_body]
pub(crate) fn series_equal(a: &Series, b: &Series) -> (r: bool)
    requires
        series_cells(*a).len() <= u32::MAX,
        series_cells(*b).len() <= u32::MAX,
        series_dtype(*a) is Some,
        series_dtype(*a) != Some(Dtype::Float64),
        series_dtype(*a) == series_dtype(*b),
        series_cells(*a).len() == series_cells(*b).len(),
        series_cells(*a).len() > 0,
        null_count(series_cells(*a)) == 0,
        null_count(series_cells(*b)) == 0,
    ensures
        r == (series_cells(*a) == series_cells(*b)),
{
    a.series_equal(b)
}

/// `Series::series_equal_missing` on two columns of one dtype other than
/// floats: whether they have the same length and each cell equals the cell
/// at its position in the other column, a null equal to a null. The engine
/// counts the equal positions in 32 bits.
/// The engine may join the pieces of a column, and panics if there is none.
#[verifier::external_body]
pub(crate) fn series_equal_missing(a: &Series, b: &Series) -> (r: bool)
    requires
        series_cells(*a).len() <= u32::MAX,
        series_cells(*b).len() <= u32::MAX,
        series_chunks(*a) >= 1,
        series_chunks(*b) >= 1,
        series_dtype(*a) is Some,
        series_dtype(*a) != Some(Dtype::Float64),
        series_dtype(*a) == series_dtype(*b),
    ensures
        r == (series_cells(*a) == series_cells(*b)),
{
    a.series_equal_missing(b)
}

/// `Display` of the column's `DataType`: the name by which the engine prints
/// the dtype, which for the six is `bool`, `i64`, the name of the 64-bit
/// float, `str`, `date32(days)` or `date64(ms)`. For some element types
/// outside the six it panics.
#[verifier::external_body]
pub(crate) fn series_dtype_text(s: &Series) -> (r: String)
    requires
        series_dtype(*s) is Some,
    ensures
        r@ == dtype_text(series_dtype(*s).unwrap()),
{
    s.dtype().to_string()
}

/// What the engine prints of a column of the given name, dtype and cells.
pub uninterp spec fn series_text(name: Seq<char>, dtype: Dtype, cells: Seq<Cell>) -> Seq<char>;

/// `Debug` of `Series`: the column printed for a reader, with its length,
/// its name, its dtype and its cells, of a long column the first and the
/// last. What is printed depends on nothing else. The engine panics on a
/// date that its calendar does not hold.
#[verifier::external_body]
pub(crate) fn series_debug(s: &Series) -> (r: String)
    requires
        series_dtype(*s) is Some,
        prints(series_dtype(*s).unwrap(), series_cells(*s)),
    ensures
        r@ == series_text(series_name(*s), series_dtype(*s).unwrap(), series_cells(*s)),
{
    format!("{:?}", s)
}

/// `Series::explode` of a compact Utf8 column without nulls: a Utf8 column
/// of the characters of its strings, under the same name. The engine reads
/// the buffers of the column from their start, and beside nulls it counts
/// characters against bytes.
#[verifier::external_body]
pub(crate) fn series_explode(s: &Series) -> (r: Result<Series, PolarsError>)
    requires
        series_dtype(*s) == Some(Dtype::Utf8),
        null_count(series_cells(*s)) == 0,
        series_is_compact(*s),
    ensures
        r is Ok,
        series_name(r.unwrap()) == series_name(*s),
        series_dtype(r.unwrap()) == Some(Dtype::Utf8),
        series_cells(r.unwrap()) == explode_cells(series_cells(*s)),
{
    s.explode()
}

/// The generator `rand_pcg::Pcg64`: opaque here, described by the name
/// below.
#[verifier::external_type_specification]
#[verifier::external_body]
pub struct ExPcg64(Lcg128Xsl64);

/// What a generator holds: the two numbers of its state, from which all
/// that it will give follows.
pub uninterp spec fn rng_state(rng: Lcg128Xsl64) -> (int, int);

/// `SeedableRng::seed_from_u64` for `Pcg64`: a generator in the state that
/// the seed fixes.
#[verifier::external_body]
pub(crate) fn rng_from_seed(seed: u64) -> (r: Lcg128Xsl64)
    ensures
        rng_state(r) == pcg_seeded(seed),
{
    Lcg128Xsl64::seed_from_u64(seed)
}

/// `Rng::gen_range` on `0..bound` in 64 bits: a number below the bound, which
/// the state of the generator fixes together with the state that it leaves.
/// The generator panics on an empty range.
#[verifier::external_body]
pub(crate) fn rng_draw_below(rng: &mut Lcg128Xsl64, bound: u64) -> (r: u64)
    requires
        bound > 0,
    ensures
        r < bound,
        r == pcg_draw(rng_state(*old(rng)), bound).0,
        rng_state(*final(rng)) == pcg_draw(rng_state(*old(rng)), bound).1,
{
    rng.gen_range(0..bound)
}

/// `IteratorRandom::choose_multiple` over the items of a vector: `amount` of
/// them, each taken from a position of its own, in an order that the state
/// of the generator fixes. The engine sets room for `amount` items aside
/// before it looks at the vector, so no more are asked for than there are.
#[verifier::external_body]
pub(crate) fn rng_choose(rng: &mut Lcg128Xsl64, items: &Vec<usize>, amount: usize) -> (r: Vec<
    usize,
>)
    requires
        amount <= items@.len(),
    ensures
        r@ == pcg_choice(rng_state(*old(rng)), items@, amount),
        r@.len() == amount,
        exists|positions: Seq<int>| picked_at(items@, r@, positions),
{
    items.iter().choose_multiple(rng, amount).into_iter().copied().collect()
}

} // verus!
