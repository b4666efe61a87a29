//! Distinct cells of a series and how often they occur.
//!
//! Null is a cell like any other here: it is kept once among the distinct
//! cells, is counted with them, and is unique if it occurs once. Only the
//! number of distinct values leaves it out.

use vstd::prelude::*;
use vstd::string::StringExecFns;
use crate::dtype::Dtype;
use crate::engine::{error_message, series_cells, series_dtype_of, series_is_duplicated};
use crate::engine::{series_is_unique, series_len, series_n_unique, series_name_of};
use crate::compare::same_cell;
use crate::engine::{series_of_ints, series_rename, series_take, series_unique};
use crate::error::ExplorerError;
use crate::model::{distinct_values, int_cells, is_distinct_copy, is_duplicated_cells};
use crate::label::{label, label_of};
use crate::model::{gather_cells, str_less, SeriesView};
use crate::engine::series_null_count;
use crate::model::{is_unique_cells, is_value_counts, lemma_null_count_contains, occurrences};
use crate::order::{comes_before, is_permutation, lemma_before_total, lemma_permutation_holds};
use crate::scalar::{Cell, Scalar};
use crate::series::{fails, gives, read_cells, ExSeries};
use crate::sort::{is_read, sort_positions};

verus! {

/// Each distinct cell of the series once, null among them if the series has
/// one, in no particular order.
///
/// `TypeMismatch` for a column of none of the six dtypes.
pub fn s_unique(data: &ExSeries) -> (r: Result<ExSeries, ExplorerError>)
    ensures
        data@.dtype is None ==> fails(r, ExplorerError::TypeMismatch),
        data@.dtype is Some ==> r is Ok && r.unwrap()@.dtype == data@.dtype && is_distinct_copy(
            r.unwrap()@.cells,
            data@.cells,
        ),
{
    if series_dtype_of(&data.series).is_none() {
        return Err(ExplorerError::TypeMismatch);
    }
    match series_unique(&data.series) {
        Ok(s) => Ok(ExSeries::new(s)),
        Err(e) => Err(ExplorerError::Polars(error_message(&e))),
    }
}

/// The number of distinct values of the series; null is no value.
///
/// `TypeMismatch` for a column of none of the six dtypes.
pub fn s_n_unique(data: &ExSeries) -> (r: Result<usize, ExplorerError>)
    ensures
        data@.dtype is None ==> fails(r, ExplorerError::TypeMismatch),
        data@.dtype is Some ==> r is Ok && r.unwrap() == distinct_values(data@.cells),
{
    if series_dtype_of(&data.series).is_none() {
        return Err(ExplorerError::TypeMismatch);
    }
    let with_null = match series_n_unique(&data.series) {
        Ok(n) => n,
        Err(e) => {
            return Err(ExplorerError::Polars(error_message(&e)));
        },
    };
    proof {
        broadcast use vstd::seq_lib::group_seq_properties;

        lemma_null_count_contains(data@.cells);
        data@.cells.lemma_cardinality_of_set();
        assert(data@.cells.to_set().finite());
        assert(data@.cells.to_set().contains(Cell::Null) <==> data@.cells.contains(Cell::Null));
    }
    if series_null_count(&data.series) > 0 {
        Ok(with_null - 1)
    } else {
        Ok(with_null)
    }
}

/// A Boolean series that tells which cells of the series occur only once.
///
/// `TypeMismatch` for a column of none of the six dtypes; `OutOfRange` for a
/// series of more than `u32::MAX` cells.
pub fn s_is_unique(data: &ExSeries) -> (r: Result<ExSeries, ExplorerError>)
    ensures
        data@.dtype is None ==> fails(r, ExplorerError::TypeMismatch),
        data@.dtype is Some && data@.cells.len() > u32::MAX ==> fails(
            r,
            ExplorerError::OutOfRange,
        ),
        data@.dtype is Some && data@.cells.len() <= u32::MAX ==> gives(
            r,
            Some(Dtype::Boolean),
            is_unique_cells(data@.cells),
        ),
{
    if series_dtype_of(&data.series).is_none() {
        return Err(ExplorerError::TypeMismatch);
    }
    if series_len(&data.series) > u32::MAX as usize {
        return Err(ExplorerError::OutOfRange);
    }
    match series_is_unique(&data.series) {
        Ok(s) => Ok(ExSeries::new(s)),
        Err(e) => Err(ExplorerError::Polars(error_message(&e))),
    }
}

/// A Boolean series that tells which cells of the series occur more than
/// once.
///
/// `TypeMismatch` for a column of none of the six dtypes; `OutOfRange` for a
/// series of more than `u32::MAX` cells.
pub fn s_is_duplicated(data: &ExSeries) -> (r: Result<ExSeries, ExplorerError>)
    ensures
        data@.dtype is None ==> fails(r, ExplorerError::TypeMismatch),
        data@.dtype is Some && data@.cells.len() > u32::MAX ==> fails(
            r,
            ExplorerError::OutOfRange,
        ),
        data@.dtype is Some && data@.cells.len() <= u32::MAX ==> gives(
            r,
            Some(Dtype::Boolean),
            is_duplicated_cells(data@.cells),
        ),
{
    if series_dtype_of(&data.series).is_none() {
        return Err(ExplorerError::TypeMismatch);
    }
    if series_len(&data.series) > u32::MAX as usize {
        return Err(ExplorerError::OutOfRange);
    }
    match series_is_duplicated(&data.series) {
        Ok(s) => Ok(ExSeries::new(s)),
        Err(e) => Err(ExplorerError::Polars(error_message(&e))),
    }
}

/// The distinct cells of a series and the number of occurrences of each.
#[derive(Clone, Debug)]
pub struct ValueCounts {
    /// Each distinct cell once, under the name and in the dtype of the
    /// series.
    pub values: ExSeries,
    /// Beside each distinct cell the number of its occurrences, as an Int64
    /// series named `counts`.
    pub counts: ExSeries,
}

/// The numbers as the cells of a series of integers.
pub open spec fn count_cells(counts: Seq<u32>) -> Seq<Cell> {
    Seq::new(counts.len(), |i: int| Cell::Int(counts[i] as int))
}

/// Whether the cells of a dtype are counted: those of all but booleans.
pub open spec fn countable(dtype: Option<Dtype>) -> bool {
    dtype is Some && dtype != Some(Dtype::Boolean)
}

/// How often a cell occurs among the cells read from a column.
fn count_of(values: &Vec<Scalar>, cell: &Scalar, Ghost(cells): Ghost<Seq<Cell>>) -> (r: u32)
    requires
        is_read(values@, cells),
        cells.len() <= u32::MAX,
    ensures
        r == occurrences(cells, cell@),
{
    broadcast use vstd::seq_lib::group_to_multiset_ensures;

    let mut count: u32 = 0;
    let mut i: usize = 0;
    assert(cells.take(0) =~= Seq::<Cell>::empty());
    while i < values.len()
        invariant
            is_read(values@, cells),
            cells.len() <= u32::MAX,
            i <= values@.len(),
            count <= i,
            count == occurrences(cells.take(i as int), cell@),
        decreases values@.len() - i,
    {
        assert(values@[i as int]@ == cells[i as int]);
        assert(cells.take(i + 1) =~= cells.take(i as int).push(cells[i as int]));
        proof {
            cells.take(i as int).to_multiset_ensures();
            assert(cells.take(i + 1).to_multiset() =~= cells.take(i as int).to_multiset().insert(
                cells[i as int],
            ));
        }
        if same_cell(&values[i], cell) {
            count += 1;
        }
        i += 1;
    }
    assert(cells.take(i as int) =~= cells);
    count
}

/// The distinct cells of the series, null among them if it has one, and how
/// often each occurs, the cells that occur most often first.
///
/// `TypeMismatch` for booleans and for a column of none of the six dtypes;
/// `OutOfRange` for a series of more than `u32::MAX` cells.
pub fn s_value_counts(data: &ExSeries) -> (r: Result<ValueCounts, ExplorerError>)
    ensures
        !countable(data@.dtype) ==> fails(r, ExplorerError::TypeMismatch),
        countable(data@.dtype) && data@.cells.len() > u32::MAX ==> fails(
            r,
            ExplorerError::OutOfRange,
        ),
        countable(data@.dtype) && data@.cells.len() <= u32::MAX ==> r is Ok && r.unwrap().values@.name
            == data@.name && r.unwrap().values@.dtype == data@.dtype && r.unwrap().counts@.name
            == "counts"@ && r.unwrap().counts@.dtype == Some(Dtype::Int64) && exists|
            counts: Seq<u32>,
        |
            r.unwrap().counts@.cells == count_cells(counts) && is_value_counts(
                r.unwrap().values@.cells,
                counts,
                data@.cells,
            ),
{
    match series_dtype_of(&data.series) {
        None | Some(Dtype::Boolean) => {
            return Err(ExplorerError::TypeMismatch);
        },
        Some(_) => {},
    }
    if series_len(&data.series) > u32::MAX as usize {
        return Err(ExplorerError::OutOfRange);
    }
    let distinct = match series_unique(&data.series) {
        Ok(s) => s,
        Err(e) => {
            return Err(ExplorerError::Polars(error_message(&e)));
        },
    };
    let ghost cells = data@.cells;
    let ghost found_cells = series_cells(distinct);
    let found = read_cells(&distinct);
    let all = read_cells(&data.series);
    proof {
        found_cells.unique_seq_to_set();
        cells.lemma_cardinality_of_set();
    }
    // How often each distinct cell occurs, and the numbers as the keys by
    // which the cells are ordered.
    let mut tally: Vec<u32> = Vec::new();
    let mut keys: Vec<Scalar> = Vec::new();
    let mut c: usize = 0;
    while c < found.len()
        invariant
            is_read(found@, found_cells),
            is_read(all@, cells),
            cells.len() <= u32::MAX,
            c <= found@.len(),
            tally@.len() == c,
            keys@.len() == c,
            forall|k: int| 0 <= k < c ==> #[trigger] tally@[k] == occurrences(cells, found_cells[k]),
            forall|k: int| 0 <= k < c ==> (#[trigger] keys@[k])@ == Cell::Int(tally@[k] as int),
        decreases found@.len() - c,
    {
        assert(found@[c as int]@ == found_cells[c as int]);
        let k = count_of(&all, &found[c], Ghost(cells));
        tally.push(k);
        keys.push(Scalar::Integer(k as i64));
        c += 1;
    }
    let ghost key_cells = Seq::new(keys@.len(), |k: int| Cell::Int(tally@[k] as int));
    let order = sort_positions(&keys, true, Ghost(Dtype::Int64), Ghost(key_cells));
    let mut values = series_take(&distinct, &order);
    let name = series_name_of(&data.series);
    series_rename(&mut values, name.as_str());
    let mut counts: Vec<u32> = Vec::new();
    let mut numbers: Vec<Option<i64>> = Vec::new();
    let mut i: usize = 0;
    while i < order.len()
        invariant
            i <= order@.len(),
            order@.len() == tally@.len(),
            forall|j: int| 0 <= j < order@.len() ==> #[trigger] order@[j] < tally@.len(),
            counts@.len() == i,
            numbers@.len() == i,
            forall|j: int| 0 <= j < i ==> #[trigger] counts@[j] == tally@[order@[j] as int],
            forall|j: int| 0 <= j < i ==> #[trigger] numbers@[j] == Some(counts@[j] as i64),
        decreases order@.len() - i,
    {
        let k = tally[order[i] as usize];
        counts.push(k);
        numbers.push(Some(k as i64));
        i += 1;
    }
    let column_of_counts = series_of_ints("counts", &numbers);
    proof {
        assert(int_cells(numbers@) =~= count_cells(counts@));
        lemma_gathered_distinct(found_cells, order@);
        let row = series_cells(values);
        assert(row =~= gather_cells(found_cells, order@));
        assert forall|a: int, b: int| 0 <= a < b < counts@.len() implies #[trigger] counts@[a]
            >= #[trigger] counts@[b] by {
            let p = order@[a] as int;
            let q = order@[b] as int;
            assert(comes_before(key_cells, true, p, q));
            lemma_before_total(Dtype::Int64, key_cells, true, p, q);
        }
        assert(is_value_counts(row, counts@, cells));
    }
    Ok(ValueCounts { values: ExSeries::new(values), counts: ExSeries::new(column_of_counts) })
}

/// The cells of a list without duplicates, taken at every position once,
/// are the same cells without duplicates.
proof fn lemma_gathered_distinct(cells: Seq<Cell>, order: Seq<u32>)
    requires
        cells.no_duplicates(),
        cells.len() <= u32::MAX,
        is_permutation(order, cells.len()),
    ensures
        gather_cells(cells, order).no_duplicates(),
        gather_cells(cells, order).to_set() == cells.to_set(),
{
    let out = gather_cells(cells, order);
    assert forall|i: int, j: int| 0 <= i < out.len() && 0 <= j < out.len() && i != j implies out[i]
        != out[j] by {
        if i < j {
            assert(order[i] != order[j]);
        } else {
            assert(order[j] != order[i]);
        }
    }
    assert forall|c: Cell| out.to_set().contains(c) <==> cells.to_set().contains(c) by {
        if out.to_set().contains(c) {
            let i = choose|i: int| 0 <= i < out.len() && out[i] == c;
            assert(cells[order[i] as int] == c);
        }
        if cells.to_set().contains(c) {
            let p = choose|p: int| 0 <= p < cells.len() && cells[p] == c;
            lemma_permutation_holds(order, cells.len(), p as u32);
            let i = choose|i: int| 0 <= i < order.len() && order[i] == p as u32;
            assert(out[i] == c);
        }
    }
    assert(out.to_set() =~= cells.to_set());
}

/// The name of the indicator column of a cell: the name of the series, an
/// underscore, and the text that names the cell.
pub open spec fn dummy_name(name: Seq<char>, cell: Cell) -> Seq<char> {
    name + seq!['_'] + label_of(cell)
}

/// The cells of the indicator column of a cell: 1 at the positions of the
/// cell and 0 elsewhere.
pub open spec fn marks(cells: Seq<Cell>, cell: Cell) -> Seq<Cell> {
    Seq::new(
        cells.len(),
        |i: int|
            Cell::Int(
                if cells[i] == cell {
                    1
                } else {
                    0
                },
            ),
    )
}

/// Whether `columns` are the indicator columns of a series: one for each
/// distinct cell, null among them, named after the series and the cell,
/// holding 1 at the positions of the cell and 0 elsewhere, in the order of
/// their names.
pub open spec fn is_dummies(columns: Seq<SeriesView>, data: SeriesView) -> bool {
    exists|distinct: Seq<Cell>|
        {
            &&& is_distinct_copy(distinct, data.cells)
            &&& columns.len() == distinct.len()
            &&& forall|c: int|
                0 <= c < columns.len() ==> (#[trigger] columns[c]).name == dummy_name(
                    data.name,
                    distinct[c],
                ) && columns[c].dtype == Some(Dtype::Int64) && columns[c].cells == marks(
                    data.cells,
                    distinct[c],
                )
            &&& forall|a: int, b: int|
                0 <= a < b < columns.len() ==> !str_less(
                    (#[trigger] columns[b]).name,
                    (#[trigger] columns[a]).name,
                )
        }
}

/// The views of a list of series.
pub open spec fn views_of(columns: Seq<ExSeries>) -> Seq<SeriesView> {
    Seq::new(columns.len(), |c: int| columns[c]@)
}

/// The indicator column of a cell, under a name.
fn mark(all: &Vec<Scalar>, value: &Scalar, name: &str, Ghost(cells): Ghost<Seq<Cell>>) -> (r: ExSeries)
    requires
        is_read(all@, cells),
    ensures
        r@.name == name@,
        r@.dtype == Some(Dtype::Int64),
        r@.cells == marks(cells, value@),
{
    let mut flags: Vec<Option<i64>> = Vec::new();
    let mut i: usize = 0;
    while i < all.len()
        invariant
            is_read(all@, cells),
            i <= all@.len(),
            flags@.len() == i,
            forall|j: int|
                0 <= j < i ==> #[trigger] flags@[j] == Some(
                    if cells[j] == value@ {
                        1i64
                    } else {
                        0i64
                    },
                ),
        decreases all@.len() - i,
    {
        assert(all@[i as int]@ == cells[i as int]);
        flags.push(
            Some(
                if same_cell(&all[i], value) {
                    1
                } else {
                    0
                },
            ),
        );
        i += 1;
    }
    let column = series_of_ints(name, &flags);
    assert(int_cells(flags@) =~= marks(cells, value@));
    ExSeries::new(column)
}

/// The indicator columns of a series; see `is_dummies`.
///
/// `TypeMismatch` unless the series holds integers, dates or strings;
/// `OutOfRange` for a series of more than `u32::MAX` cells.
pub fn s_to_dummies(data: &ExSeries) -> (r: Result<Vec<ExSeries>, ExplorerError>)
    ensures
        match data@.dtype {
            Some(dtype) if dtype.is_integral() || dtype == Dtype::Utf8 => if data@.cells.len()
                > u32::MAX {
                fails(r, ExplorerError::OutOfRange)
            } else {
                r is Ok && is_dummies(views_of(r.unwrap()@), data@)
            },
            _ => fails(r, ExplorerError::TypeMismatch),
        },
{
    match series_dtype_of(&data.series) {
        Some(Dtype::Int64) | Some(Dtype::Date32) | Some(Dtype::Date64) | Some(Dtype::Utf8) => {},
        _ => {
            return Err(ExplorerError::TypeMismatch);
        },
    }
    if series_len(&data.series) > u32::MAX as usize {
        return Err(ExplorerError::OutOfRange);
    }
    let distinct = match series_unique(&data.series) {
        Ok(s) => s,
        Err(e) => {
            return Err(ExplorerError::Polars(error_message(&e)));
        },
    };
    let ghost cells = data@.cells;
    let ghost found_cells = series_cells(distinct);
    let found = read_cells(&distinct);
    let all = read_cells(&data.series);
    let base = series_name_of(&data.series);
    proof {
        found_cells.unique_seq_to_set();
        cells.lemma_cardinality_of_set();
        reveal_strlit("_");
    }
    // The names of the columns, by which the columns are ordered.
    let mut names: Vec<Scalar> = Vec::new();
    let mut c: usize = 0;
    while c < found.len()
        invariant
            is_read(found@, found_cells),
            base@ == data@.name,
            "_"@ == seq!['_'],
            c <= found@.len(),
            names@.len() == c,
            forall|k: int|
                0 <= k < c ==> (#[trigger] names@[k])@ == Cell::Str(
                    dummy_name(data@.name, found_cells[k]),
                ),
        decreases found@.len() - c,
    {
        assert(found@[c as int]@ == found_cells[c as int]);
        let mut name = base.clone();
        name.append("_");
        name.append(label(&found[c]).as_str());
        names.push(Scalar::Utf8(name));
        c += 1;
    }
    let ghost name_cells = Seq::new(
        names@.len(),
        |k: int| Cell::Str(dummy_name(data@.name, found_cells[k])),
    );
    let order = sort_positions(&names, false, Ghost(Dtype::Utf8), Ghost(name_cells));
    let ghost chosen = gather_cells(found_cells, order@);
    proof {
        lemma_gathered_distinct(found_cells, order@);
    }
    let mut out: Vec<ExSeries> = Vec::new();
    let mut i: usize = 0;
    while i < order.len()
        invariant
            is_read(found@, found_cells),
            is_read(all@, cells),
            is_read(names@, name_cells),
            names@.len() == found@.len(),
            found_cells.len() == found@.len(),
            forall|k: int|
                0 <= k < name_cells.len() ==> #[trigger] name_cells[k] == Cell::Str(
                    dummy_name(data@.name, found_cells[k]),
                ),
            order@.len() == found@.len(),
            forall|j: int| 0 <= j < order@.len() ==> #[trigger] order@[j] < found@.len(),
            chosen == gather_cells(found_cells, order@),
            i <= order@.len(),
            out@.len() == i,
            forall|j: int|
                0 <= j < i ==> (#[trigger] out@[j])@.name == dummy_name(data@.name, chosen[j])
                    && out@[j]@.dtype == Some(Dtype::Int64) && out@[j]@.cells == marks(
                    cells,
                    chosen[j],
                ),
        decreases order@.len() - i,
    {
        let at = order[i] as usize;
        assert(found@[at as int]@ == found_cells[at as int]);
        assert(names@[at as int]@ == name_cells[at as int]);
        let column = match &names[at] {
            Scalar::Utf8(name) => mark(&all, &found[at], name.as_str(), Ghost(cells)),
            _ => mark(&all, &found[at], base.as_str(), Ghost(cells)),
        };
        out.push(column);
        i += 1;
    }
    proof {
        let columns = views_of(out@);
        assert forall|a: int, b: int| 0 <= a < b < columns.len() implies !str_less(
            (#[trigger] columns[b]).name,
            (#[trigger] columns[a]).name,
        ) by {
            let p = order@[a] as int;
            let q = order@[b] as int;
            assert(comes_before(name_cells, false, p, q));
            lemma_before_total(Dtype::Utf8, name_cells, false, p, q);
            assert(columns[a].name == dummy_name(data@.name, chosen[a]));
            assert(columns[b].name == dummy_name(data@.name, chosen[b]));
        }
        assert(is_distinct_copy(chosen, cells));
        assert(columns.len() == chosen.len());
        assert forall|c: int| 0 <= c < columns.len() implies (#[trigger] columns[c]).name
            == dummy_name(data@.name, chosen[c]) && columns[c].dtype == Some(Dtype::Int64)
            && columns[c].cells == marks(data@.cells, chosen[c]) by {
            assert(columns[c] == out@[c]@);
        }
        assert(is_dummies(columns, data@));
    }
    Ok(out)
}

} // verus!
