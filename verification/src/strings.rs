//! Operations on the strings of a Utf8 series. A null stays null.

use vstd::prelude::*;
use polars::prelude::PolarsError;
use polars::prelude::Series;
use crate::dtype::Dtype;
use crate::engine::{error_message, series_cells, series_dtype, series_dtype_of, series_name};
use crate::engine::{series_append, series_drop_nulls, series_len, series_name_of};
use crate::engine::{series_explode, series_of_strs, series_take};
use crate::engine::{series_null_count, series_of_ints, series_parse_date32};
use crate::engine::{series_parse_date64, series_sniff_date32, series_sniff_date64};
use crate::engine::{series_str_contains, series_str_lengths, series_str_replace};
use crate::engine::{series_str_replace_all, series_str_to_lowercase, series_str_to_uppercase};
use crate::error::ExplorerError;
use crate::model::{drop_null_cells, int_cells, lemma_drop_nulls, next_value};
use crate::model::{null_count, SeriesView};
use crate::scalar::{Cell, Scalar};
use crate::series::{cast_column, compact, fails, fails_in_engine, read_cells, ExSeries};

verus! {

/// Whether the regular expression engine accepts a pattern.
pub uninterp spec fn regex_is_valid(pattern: Seq<char>) -> bool;

/// Whether a valid pattern matches somewhere in a text.
pub uninterp spec fn regex_is_match(pattern: Seq<char>, text: Seq<char>) -> bool;

/// A text with the first match of a valid pattern replaced by the
/// replacement, in which `$` refers to what the pattern captured.
pub uninterp spec fn regex_replace(pattern: Seq<char>, replacement: Seq<char>, text: Seq<char>) -> Seq<char>;

/// A text with every match of a valid pattern replaced by the replacement.
pub uninterp spec fn regex_replace_all(
    pattern: Seq<char>,
    replacement: Seq<char>,
    text: Seq<char>,
) -> Seq<char>;

/// A text in upper case, by the rules of Unicode.
pub uninterp spec fn uppercase_of(text: Seq<char>) -> Seq<char>;

/// A text in lower case, by the rules of Unicode.
pub uninterp spec fn lowercase_of(text: Seq<char>) -> Seq<char>;

/// The date that a text gives when it is parsed by a format of the kind of
/// `strftime`, in days since the epoch; `None` if it does not parse.
pub uninterp spec fn parsed_date32(format: Seq<char>, text: Seq<char>) -> Option<int>;

/// The date and time that a text gives when it is parsed by a format of the
/// kind of `strftime`, in milliseconds since the epoch; `None` if it does
/// not parse.
pub uninterp spec fn parsed_date64(format: Seq<char>, text: Seq<char>) -> Option<int>;

/// The format by which the engine knows a text as a date, if it knows it by
/// one of its own.
pub uninterp spec fn sniffed_format(text: Seq<char>) -> Option<Seq<char>>;

/// The number of bytes of a character in UTF-8.
pub open spec fn utf8_char_len(c: char) -> nat {
    if (c as u32) < 0x80 {
        1
    } else if (c as u32) < 0x800 {
        2
    } else if (c as u32) < 0x1_0000 {
        3
    } else {
        4
    }
}

/// The number of bytes of a text in UTF-8.
pub open spec fn utf8_len(text: Seq<char>) -> nat
    decreases text.len(),
{
    if text.len() == 0 {
        0
    } else {
        utf8_len(text.drop_last()) + utf8_char_len(text.last())
    }
}

/// The characters of a text, each as a string of its own.
pub open spec fn char_cells(text: Seq<char>) -> Seq<Cell> {
    Seq::new(text.len(), |k: int| Cell::Str(seq![text[k]]))
}

/// The characters of the strings of a series, in order, each as a string of
/// its own. A null and an empty string have no characters.
pub open spec fn explode_cells(cells: Seq<Cell>) -> Seq<Cell>
    decreases cells.len(),
{
    if cells.len() == 0 {
        Seq::empty()
    } else {
        explode_cells(cells.drop_last()) + match cells.last() {
            Cell::Str(text) => char_cells(text),
            _ => Seq::empty(),
        }
    }
}

/// The first string of a series, if it has one.
pub open spec fn first_text(cells: Seq<Cell>) -> Option<Seq<char>> {
    match next_value(cells, 0) {
        Cell::Str(text) => Some(text),
        _ => None,
    }
}

/// Each string replaced by what `f` makes of it; a null stays null.
pub open spec fn map_text(cells: Seq<Cell>, f: spec_fn(Seq<char>) -> Cell) -> Seq<Cell> {
    Seq::new(
        cells.len(),
        |i: int|
            match cells[i] {
                Cell::Str(text) => f(text),
                _ => Cell::Null,
            },
    )
}

/// What an operation on strings gives: `TypeMismatch` unless the series is
/// Utf8, else a series of the given dtype in which each string is replaced
/// by what `f` makes of it.
pub open spec fn gives_text(
    r: Result<ExSeries, ExplorerError>,
    data: SeriesView,
    dtype: Dtype,
    f: spec_fn(Seq<char>) -> Cell,
) -> bool {
    if data.dtype != Some(Dtype::Utf8) {
        fails(r, ExplorerError::TypeMismatch)
    } else {
        r is Ok && r.unwrap()@.dtype == Some(dtype) && r.unwrap()@.cells == map_text(data.cells, f)
    }
}

/// What an operation with a regular expression gives: `TypeMismatch` unless
/// the series is Utf8, else the engine's error if the pattern is not valid,
/// else as `gives_text`.
pub open spec fn gives_matched(
    r: Result<ExSeries, ExplorerError>,
    data: SeriesView,
    pattern: Seq<char>,
    dtype: Dtype,
    f: spec_fn(Seq<char>) -> Cell,
) -> bool {
    if data.dtype != Some(Dtype::Utf8) {
        fails(r, ExplorerError::TypeMismatch)
    } else if !regex_is_valid(pattern) {
        fails_in_engine(r)
    } else {
        r is Ok && r.unwrap()@.dtype == Some(dtype) && r.unwrap()@.cells == map_text(data.cells, f)
    }
}

/// Whether the series is Utf8.
fn holds_text(data: &ExSeries) -> (r: bool)
    ensures
        r == (data@.dtype == Some(Dtype::Utf8)),
{
    match series_dtype_of(&data.series) {
        Some(Dtype::Utf8) => true,
        _ => false,
    }
}

/// The length of each string in bytes of UTF-8, as an Int64 series of the
/// same name. A string of more than `u32::MAX` bytes has a length, but not
/// one that is stated here.
///
/// `TypeMismatch` unless the series is Utf8.
pub fn s_str_lengths(data: &ExSeries) -> (r: Result<ExSeries, ExplorerError>)
    ensures
        data@.dtype != Some(Dtype::Utf8) ==> fails(r, ExplorerError::TypeMismatch),
        data@.dtype == Some(Dtype::Utf8) ==> r is Ok && r.unwrap()@.name == data@.name
            && r.unwrap()@.dtype == Some(Dtype::Int64) && r.unwrap()@.cells.len()
            == data@.cells.len() && forall|i: int|
            0 <= i < data@.cells.len() ==> match data@.cells[i] {
                Cell::Str(text) => (#[trigger] r.unwrap()@.cells[i]) is Int && (utf8_len(text)
                    <= u32::MAX ==> r.unwrap()@.cells[i] == Cell::Int(utf8_len(text) as int)),
                _ => r.unwrap()@.cells[i] is Null,
            },
{
    if !holds_text(data) {
        return Err(ExplorerError::TypeMismatch);
    }
    let lengths = match series_str_lengths(&data.series) {
        Ok(l) => l,
        Err(e) => {
            return Err(ExplorerError::Polars(error_message(&e)));
        },
    };
    let mut values: Vec<Option<i64>> = Vec::new();
    let mut i: usize = 0;
    while i < lengths.len()
        invariant
            i <= lengths@.len(),
            values@.len() == i,
            forall|j: int|
                0 <= j < i ==> #[trigger] values@[j] == match lengths@[j] {
                    Some(n) => Some(n as i64),
                    None => None::<i64>,
                },
        decreases lengths@.len() - i,
    {
        let value = match lengths[i] {
            Some(n) => Some(n as i64),
            None => None,
        };
        values.push(value);
        i += 1;
    }
    let name = series_name_of(&data.series);
    let out = series_of_ints(name.as_str(), &values);
    proof {
        assert forall|i: int| 0 <= i < data@.cells.len() implies match data@.cells[i] {
            Cell::Str(text) => (#[trigger] series_cells(out)[i]) is Int && (utf8_len(text)
                <= u32::MAX ==> series_cells(out)[i] == Cell::Int(utf8_len(text) as int)),
            _ => series_cells(out)[i] is Null,
        } by {
            assert(series_cells(out)[i] == int_cells(values@)[i]);
            let _ = lengths@[i];
        }
    }
    Ok(ExSeries::new(out))
}

/// A Boolean series that tells which strings the regular expression `pat`
/// matches.
pub fn s_str_contains(data: &ExSeries, pat: &str) -> (r: Result<ExSeries, ExplorerError>)
    ensures
        gives_matched(
            r,
            data@,
            pat@,
            Dtype::Boolean,
            |text: Seq<char>| Cell::Bool(regex_is_match(pat@, text)),
        ),
{
    if !holds_text(data) {
        return Err(ExplorerError::TypeMismatch);
    }
    match series_str_contains(&data.series, pat) {
        Ok(out) => {
            assert(series_cells(out) =~= map_text(
                data@.cells,
                |text: Seq<char>| Cell::Bool(regex_is_match(pat@, text)),
            ));
            Ok(ExSeries::new(out))
        },
        Err(e) => Err(ExplorerError::Polars(error_message(&e))),
    }
}

/// Each string with the first match of the regular expression `pat`
/// replaced by `val`.
pub fn s_str_replace(data: &ExSeries, pat: &str, val: &str) -> (r: Result<ExSeries, ExplorerError>)
    ensures
        gives_matched(
            r,
            data@,
            pat@,
            Dtype::Utf8,
            |text: Seq<char>| Cell::Str(regex_replace(pat@, val@, text)),
        ),
{
    if !holds_text(data) {
        return Err(ExplorerError::TypeMismatch);
    }
    match series_str_replace(&data.series, pat, val) {
        Ok(out) => {
            assert(series_cells(out) =~= map_text(
                data@.cells,
                |text: Seq<char>| Cell::Str(regex_replace(pat@, val@, text)),
            ));
            Ok(ExSeries::new(out))
        },
        Err(e) => Err(ExplorerError::Polars(error_message(&e))),
    }
}

/// Each string with every match of the regular expression `pat` replaced by
/// `val`.
pub fn s_str_replace_all(data: &ExSeries, pat: &str, val: &str) -> (r: Result<
    ExSeries,
    ExplorerError,
>)
    ensures
        gives_matched(
            r,
            data@,
            pat@,
            Dtype::Utf8,
            |text: Seq<char>| Cell::Str(regex_replace_all(pat@, val@, text)),
        ),
{
    if !holds_text(data) {
        return Err(ExplorerError::TypeMismatch);
    }
    match series_str_replace_all(&data.series, pat, val) {
        Ok(out) => {
            assert(series_cells(out) =~= map_text(
                data@.cells,
                |text: Seq<char>| Cell::Str(regex_replace_all(pat@, val@, text)),
            ));
            Ok(ExSeries::new(out))
        },
        Err(e) => Err(ExplorerError::Polars(error_message(&e))),
    }
}

/// Each string in upper case.
pub fn s_str_to_uppercase(data: &ExSeries) -> (r: Result<ExSeries, ExplorerError>)
    ensures
        gives_text(r, data@, Dtype::Utf8, |text: Seq<char>| Cell::Str(uppercase_of(text))),
{
    if !holds_text(data) {
        return Err(ExplorerError::TypeMismatch);
    }
    match series_str_to_uppercase(&data.series) {
        Ok(out) => {
            assert(series_cells(out) =~= map_text(
                data@.cells,
                |text: Seq<char>| Cell::Str(uppercase_of(text)),
            ));
            Ok(ExSeries::new(out))
        },
        Err(e) => Err(ExplorerError::Polars(error_message(&e))),
    }
}

/// Each string in lower case.
pub fn s_str_to_lowercase(data: &ExSeries) -> (r: Result<ExSeries, ExplorerError>)
    ensures
        gives_text(r, data@, Dtype::Utf8, |text: Seq<char>| Cell::Str(lowercase_of(text))),
{
    if !holds_text(data) {
        return Err(ExplorerError::TypeMismatch);
    }
    match series_str_to_lowercase(&data.series) {
        Ok(out) => {
            assert(series_cells(out) =~= map_text(
                data@.cells,
                |text: Seq<char>| Cell::Str(lowercase_of(text)),
            ));
            Ok(ExSeries::new(out))
        },
        Err(e) => Err(ExplorerError::Polars(error_message(&e))),
    }
}

/// A series without nulls is its own series of values.
proof fn lemma_no_values_dropped(cells: Seq<Cell>)
    requires
        null_count(cells) == 0,
    ensures
        drop_null_cells(cells) == cells,
    decreases cells.len(),
{
    if cells.len() > 0 {
        let init = cells.drop_last();
        assert(null_count(init) == 0);
        lemma_no_values_dropped(init);
        assert(init.push(cells.last()) =~= cells);
    } else {
        assert(drop_null_cells(cells) =~= cells);
    }
}

/// The cell that a parsed date makes.
pub open spec fn date_cell(parsed: Option<int>) -> Cell {
    match parsed {
        Some(count) => Cell::Int(count),
        None => Cell::Null,
    }
}

/// What parsing dates gives.
///
/// `TypeMismatch` unless the series is Utf8. With a format, each string is
/// parsed by it, and a string that does not parse gives a null. Without a
/// format, the format is the one by which the engine knows the first string
/// of the series; the engine reports an error if the series has no string,
/// or if it knows the first string by no format. Without a format, a series
/// with nulls can have `u32::MAX - 1` cells at most, else the result is
/// `OutOfRange`.
pub open spec fn gives_dates(
    r: Result<ExSeries, ExplorerError>,
    data: SeriesView,
    fmt: Option<Seq<char>>,
    dtype: Dtype,
    parse: spec_fn(Seq<char>, Seq<char>) -> Option<int>,
) -> bool {
    if data.dtype != Some(Dtype::Utf8) {
        fails(r, ExplorerError::TypeMismatch)
    } else if fmt is None && null_count(data.cells) > 0 && data.cells.len() >= u32::MAX {
        fails(r, ExplorerError::OutOfRange)
    } else {
        match format_for(data.cells, fmt) {
            None => fails_in_engine(r),
            Some(format) => r is Ok && r.unwrap()@.name == data.name && r.unwrap()@.dtype == Some(
                dtype,
            ) && r.unwrap()@.cells == map_text(
                data.cells,
                |text: Seq<char>| date_cell(parse(format, text)),
            ),
        }
    }
}

/// The format by which the strings of a series are parsed: the given one, or
/// the one by which the engine knows the first string of the series.
pub open spec fn format_for(cells: Seq<Cell>, fmt: Option<Seq<char>>) -> Option<Seq<char>> {
    match fmt {
        Some(format) => Some(format),
        None => match first_text(cells) {
            Some(text) => sniffed_format(text),
            None => None,
        },
    }
}

/// The first value of a series is the first of its values without the
/// nulls.
proof fn lemma_first_value(cells: Seq<Cell>, i: int)
    requires
        0 <= i <= cells.len(),
        forall|j: int| 0 <= j < i ==> #[trigger] cells[j] is Null,
    ensures
        next_value(cells, i) == next_value(drop_null_cells(cells), 0),
        drop_null_cells(cells.take(i)).len() == 0,
    decreases cells.len() - i,
{
    lemma_leading_nulls(cells.take(i));
    if i < cells.len() {
        if cells[i] is Null {
            lemma_first_value(cells, i + 1);
        } else {
            lemma_values_from(cells, i + 1);
            assert(cells.take(i + 1).drop_last() =~= cells.take(i));
            assert(drop_null_cells(cells.take(i + 1)) =~= seq![cells[i]]);
            assert(drop_null_cells(cells)[0] == cells[i]);
        }
    } else {
        assert(cells.take(i) =~= cells);
    }
}

/// A series of nulls has no values.
proof fn lemma_leading_nulls(cells: Seq<Cell>)
    requires
        forall|j: int| 0 <= j < cells.len() ==> #[trigger] cells[j] is Null,
    ensures
        drop_null_cells(cells).len() == 0,
    decreases cells.len(),
{
    if cells.len() > 0 {
        assert(cells[cells.len() - 1] is Null);
        assert forall|j: int| 0 <= j < cells.drop_last().len() implies #[trigger] cells.drop_last()[j]
            is Null by {
            assert(cells[j] is Null);
        }
        lemma_leading_nulls(cells.drop_last());
    }
}

/// The values of the first `i` cells of a series are the first of its
/// values.
proof fn lemma_values_from(cells: Seq<Cell>, i: int)
    requires
        0 <= i <= cells.len(),
    ensures
        drop_null_cells(cells.take(i)).len() <= drop_null_cells(cells).len(),
        forall|k: int|
            0 <= k < drop_null_cells(cells.take(i)).len() ==> #[trigger] drop_null_cells(cells)[k]
                == drop_null_cells(cells.take(i))[k],
    decreases cells.len() - i,
{
    if i < cells.len() {
        lemma_values_from(cells, i + 1);
        assert(cells.take(i + 1).drop_last() =~= cells.take(i));
    } else {
        assert(cells.take(i) =~= cells);
    }
}

/// The parsed values of a series put back at the positions of its values,
/// with a null at the position of each null. `values` holds the series
/// without its nulls and `parsed` what `f` makes of each of them.
fn restore_nulls(
    data: &Series,
    parsed: &Series,
    dtype: Dtype,
    Ghost(f): Ghost<spec_fn(Seq<char>) -> Cell>,
) -> (r: Result<Series, PolarsError>)
    requires
        series_dtype(*data) == Some(Dtype::Utf8),
        series_cells(*data).len() < u32::MAX,
        dtype == Dtype::Date32 || dtype == Dtype::Date64,
        series_dtype(*parsed) == Some(dtype),
        series_cells(*parsed) == map_text(drop_null_cells(series_cells(*data)), f),
    ensures
        r is Ok,
        series_name(r.unwrap()) == series_name(*parsed),
        series_dtype(r.unwrap()) == Some(dtype),
        series_cells(r.unwrap()) == map_text(series_cells(*data), f),
{
    let ghost cells = series_cells(*data);
    let ghost kept = drop_null_cells(cells);
    let values = read_cells(data);
    let n_values = series_len(parsed);
    proof {
        lemma_drop_nulls(cells);
    }
    let mut indices: Vec<u32> = Vec::new();
    let mut next: usize = 0;
    let mut i: usize = 0;
    while i < values.len()
        invariant
            i <= values@.len(),
            values@.len() == cells.len(),
            cells.len() < u32::MAX,
            kept == drop_null_cells(cells),
            n_values == kept.len(),
            forall|j: int| 0 <= j < cells.len() ==> (#[trigger] values@[j])@ == cells[j],
            indices@.len() == i,
            next == drop_null_cells(cells.take(i as int)).len(),
            next <= n_values <= cells.len(),
            forall|j: int|
                #![trigger indices@[j]]
                0 <= j < i ==> if cells[j] is Null {
                    indices@[j] == n_values
                } else {
                    indices@[j] < n_values && kept[indices@[j] as int] == cells[j]
                },
        decreases values@.len() - i,
    {
        proof {
            assert(values@[i as int]@ == cells[i as int]);
            let before = cells.take(i as int);
            let now = cells.take(i + 1);
            assert(now.drop_last() =~= before);
            assert(now.last() == cells[i as int]);
            lemma_values_from(cells, i + 1);
            if !(cells[i as int] is Null) {
                assert(drop_null_cells(now) == drop_null_cells(before).push(cells[i as int]));
                assert(drop_null_cells(now)[next as int] == cells[i as int]);
                assert(kept[next as int] == drop_null_cells(now)[next as int]);
            }
        }
        let at = match &values[i] {
            Scalar::Null => n_values,
            _ => {
                let at = next;
                next = next + 1;
                at
            },
        };
        indices.push(at as u32);
        i += 1;
    }
    let blank: Vec<Option<&str>> = vec![None];
    let no_text = series_of_strs("", &blank);
    let no_date = match cast_column(&no_text, dtype) {
        Ok(s) => s,
        Err(e) => {
            return Err(e);
        },
    };
    let padded = match series_append(parsed, &no_date) {
        Ok(s) => s,
        Err(e) => {
            return Err(e);
        },
    };
    proof {
        assert(series_cells(no_date).len() == 1);
        assert(series_cells(no_date)[0] is Null);
        assert forall|j: int| 0 <= j < indices@.len() implies indices@[j] < series_cells(
            padded,
        ).len() by {
            let _ = cells[j];
        }
    }
    let out = series_take(&padded, &indices);
    proof {
        assert forall|j: int| 0 <= j < cells.len() implies series_cells(out)[j] == map_text(
            cells,
            f,
        )[j] by {
            let at = indices@[j] as int;
            if !(cells[j] is Null) {
                assert(kept[at] == cells[j]);
                assert(series_cells(padded)[at] == series_cells(*parsed)[at]);
                assert(series_cells(*parsed)[at] == map_text(kept, f)[at]);
            }
        }
        assert(series_cells(out) =~= map_text(cells, f));
    }
    Ok(out)
}

/// The strings parsed as dates, in days since the epoch; see `gives_dates`.
pub fn s_str_parse_date32(data: &ExSeries, fmt: Option<&str>) -> (r: Result<
    ExSeries,
    ExplorerError,
>)
    ensures
        gives_dates(
            r,
            data@,
            match fmt {
                Some(f) => Some(f@),
                None => None,
            },
            Dtype::Date32,
            |format: Seq<char>, text: Seq<char>| parsed_date32(format, text),
        ),
{
    if !holds_text(data) {
        return Err(ExplorerError::TypeMismatch);
    }
    let with_nulls = series_null_count(&data.series) > 0;
    let parsed = match fmt {
        Some(format) => series_parse_date32(&data.series, format),
        None => {
            if !with_nulls {
                proof {
                    lemma_no_values_dropped(data@.cells);
                }
                series_sniff_date32(&data.series)
            } else {
                // The engine does not find the first string of a column
                // with nulls: the format is sniffed and the strings are
                // parsed without the nulls, which then go back in.
                if series_len(&data.series) >= u32::MAX as usize {
                    return Err(ExplorerError::OutOfRange);
                }
                let values = series_drop_nulls(&data.series);
                proof {
                    lemma_drop_nulls(data@.cells);
                    lemma_first_value(data@.cells, 0);
                }
                match series_sniff_date32(&values) {
                    Ok(dates) => {
                        let ghost format = sniffed_format(first_text(data@.cells).unwrap()).unwrap();
                        let ghost f = |text: Seq<char>| date_cell(parsed_date32(format, text));
                        proof {
                            assert(series_cells(dates) =~= map_text(series_cells(values), f));
                        }
                        restore_nulls(&data.series, &dates, Dtype::Date32, Ghost(f))
                    },
                    Err(e) => Err(e),
                }
            }
        },
    };
    match parsed {
        Ok(out) => {
            let ghost format = format_for(
                data@.cells,
                match fmt {
                    Some(f) => Some(f@),
                    None => None,
                },
            ).unwrap();
            assert(series_cells(out) =~= map_text(
                data@.cells,
                |text: Seq<char>|
                    date_cell(
                        (|format: Seq<char>, text: Seq<char>| parsed_date32(format, text))(
                            format,
                            text,
                        ),
                    ),
            ));
            Ok(ExSeries::new(out))
        },
        Err(e) => Err(ExplorerError::Polars(error_message(&e))),
    }
}

/// The strings parsed as dates and times, in milliseconds since the epoch;
/// see `gives_dates`.
pub fn s_str_parse_date64(data: &ExSeries, fmt: Option<&str>) -> (r: Result<
    ExSeries,
    ExplorerError,
>)
    ensures
        gives_dates(
            r,
            data@,
            match fmt {
                Some(f) => Some(f@),
                None => None,
            },
            Dtype::Date64,
            |format: Seq<char>, text: Seq<char>| parsed_date64(format, text),
        ),
{
    if !holds_text(data) {
        return Err(ExplorerError::TypeMismatch);
    }
    let with_nulls = series_null_count(&data.series) > 0;
    let parsed = match fmt {
        Some(format) => series_parse_date64(&data.series, format),
        None => {
            if !with_nulls {
                proof {
                    lemma_no_values_dropped(data@.cells);
                }
                series_sniff_date64(&data.series)
            } else {
                // The engine does not find the first string of a column
                // with nulls: the format is sniffed and the strings are
                // parsed without the nulls, which then go back in.
                if series_len(&data.series) >= u32::MAX as usize {
                    return Err(ExplorerError::OutOfRange);
                }
                let values = series_drop_nulls(&data.series);
                proof {
                    lemma_drop_nulls(data@.cells);
                    lemma_first_value(data@.cells, 0);
                }
                match series_sniff_date64(&values) {
                    Ok(dates) => {
                        let ghost format = sniffed_format(first_text(data@.cells).unwrap()).unwrap();
                        let ghost f = |text: Seq<char>| date_cell(parsed_date64(format, text));
                        proof {
                            assert(series_cells(dates) =~= map_text(series_cells(values), f));
                        }
                        restore_nulls(&data.series, &dates, Dtype::Date64, Ghost(f))
                    },
                    Err(e) => Err(e),
                }
            }
        },
    };
    match parsed {
        Ok(out) => {
            let ghost format = format_for(
                data@.cells,
                match fmt {
                    Some(f) => Some(f@),
                    None => None,
                },
            ).unwrap();
            assert(series_cells(out) =~= map_text(
                data@.cells,
                |text: Seq<char>|
                    date_cell(
                        (|format: Seq<char>, text: Seq<char>| parsed_date64(format, text))(
                            format,
                            text,
                        ),
                    ),
            ));
            Ok(ExSeries::new(out))
        },
        Err(e) => Err(ExplorerError::Polars(error_message(&e))),
    }
}

/// A Utf8 series of the characters of the strings of a Utf8 series, in
/// order, under the same name. A null and an empty string leave no trace.
///
/// `TypeMismatch` unless the series is Utf8.
pub fn s_explode(data: &ExSeries) -> (r: Result<ExSeries, ExplorerError>)
    ensures
        data@.dtype != Some(Dtype::Utf8) ==> fails(r, ExplorerError::TypeMismatch),
        data@.dtype == Some(Dtype::Utf8) ==> r is Ok && r.unwrap()@.name == data@.name
            && r.unwrap()@.dtype == Some(Dtype::Utf8) && r.unwrap()@.cells == explode_cells(
            data@.cells,
        ),
{
    if !holds_text(data) {
        return Err(ExplorerError::TypeMismatch);
    }
    // Beside nulls the engine loses count of the characters: the nulls,
    // which have none, leave first.
    let values = series_drop_nulls(&data.series);
    proof {
        lemma_drop_nulls(data@.cells);
        lemma_explode_values(data@.cells);
    }
    match series_explode(&compact(&values)) {
        Ok(out) => Ok(ExSeries::new(out)),
        Err(e) => Err(ExplorerError::Polars(error_message(&e))),
    }
}

/// The characters of a series are those of its values.
proof fn lemma_explode_values(cells: Seq<Cell>)
    ensures
        explode_cells(drop_null_cells(cells)) == explode_cells(cells),
    decreases cells.len(),
{
    if cells.len() > 0 {
        lemma_explode_values(cells.drop_last());
        let rest = drop_null_cells(cells.drop_last());
        if cells.last() is Null {
            assert(explode_cells(cells) =~= explode_cells(cells.drop_last()));
        } else {
            assert(rest.push(cells.last()).drop_last() =~= rest);
        }
    }
}

} // verus!
