//! Sorting a series, and the positions that sort it.

use vstd::prelude::*;
use crate::dtype::Dtype;
use crate::engine::{series_dtype_of, series_len, series_take, text_less};
use crate::error::ExplorerError;
use crate::model::{cell_less, cells_fit, float_rank, gather_cells, has_nan, is_nan_bits};
use crate::model::SeriesView;
use crate::order::{ascends, comes_before, is_ordered_kind, is_sorted_copy};
use crate::order::{is_sorting, value_before};
use crate::order::{lemma_argsort_then_take_is_sort, lemma_ascending_is_distinct};
use crate::order::{lemma_before_total, lemma_before_transitive};
use crate::reduce::holds_nan;
use crate::scalar::{Cell, Scalar};
use crate::series::{fails, read_cells, ExSeries};

verus! {

/// Whether `values` are the cells of a column, read one by one.
pub open spec fn is_read(values: Seq<Scalar>, cells: Seq<Cell>) -> bool {
    values.len() == cells.len() && forall|i: int|
        0 <= i < cells.len() ==> (#[trigger] values[i])@ == cells[i]
}

/// The place of a float among the floats.
fn rank_of(bits: u64) -> (r: i128)
    ensures
        r == float_rank(bits),
{
    let size: u64 = bits & 0x7FFF_FFFF_FFFF_FFFF;
    assert(size <= 0x7FFF_FFFF_FFFF_FFFF) by (bit_vector)
        requires
            size == bits & 0x7FFF_FFFF_FFFF_FFFF,
    ;
    if bits >= 0x8000_0000_0000_0000 {
        0 - (size as i128)
    } else {
        size as i128
    }
}

/// Whether a value is less than another of its kind.
fn value_less(a: &Scalar, b: &Scalar) -> (r: bool)
    requires
        !(a@ matches Cell::Float(x) && is_nan_bits(x)),
        !(b@ matches Cell::Float(x) && is_nan_bits(x)),
    ensures
        r == cell_less(a@, b@),
{
    match (a, b) {
        (Scalar::Integer(x), Scalar::Integer(y)) => *x < *y,
        (Scalar::Boolean(x), Scalar::Boolean(y)) => !*x && *y,
        (Scalar::Utf8(x), Scalar::Utf8(y)) => text_less(x.as_str(), y.as_str()),
        (Scalar::Float(x), Scalar::Float(y)) => rank_of(*x) < rank_of(*y),
        _ => false,
    }
}

/// Whether a value stands before another in a sorted series because of what
/// it holds.
fn stands_before(a: &Scalar, b: &Scalar, reverse: bool) -> (r: bool)
    requires
        !(a@ matches Cell::Float(x) && is_nan_bits(x)),
        !(b@ matches Cell::Float(x) && is_nan_bits(x)),
    ensures
        r == value_before(a@, b@, reverse),
{
    let a_null = match a {
        Scalar::Null => true,
        _ => false,
    };
    let b_null = match b {
        Scalar::Null => true,
        _ => false,
    };
    if reverse {
        (b_null && !a_null) || value_less(b, a)
    } else {
        (a_null && !b_null) || value_less(a, b)
    }
}

/// Whether position `p` stands before position `q` in the sorted series.
fn before(values: &Vec<Scalar>, reverse: bool, p: u32, q: u32, Ghost(cells): Ghost<Seq<Cell>>) -> (r:
    bool)
    requires
        is_read(values@, cells),
        !has_nan(cells),
        p < cells.len(),
        q < cells.len(),
    ensures
        r == comes_before(cells, reverse, p as int, q as int),
{
    let a = &values[p as usize];
    let b = &values[q as usize];
    assert(a@ == cells[p as int]);
    assert(b@ == cells[q as int]);
    if stands_before(a, b, reverse) {
        true
    } else {
        !stands_before(b, a, reverse) && p < q
    }
}

/// Two runs of ascending positions, merged into one.
fn merge(
    values: &Vec<Scalar>,
    reverse: bool,
    left: &Vec<u32>,
    right: &Vec<u32>,
    Ghost(dtype): Ghost<Dtype>,
    Ghost(cells): Ghost<Seq<Cell>>,
    Ghost(lo): Ghost<int>,
    Ghost(mid): Ghost<int>,
    Ghost(hi): Ghost<int>,
) -> (out: Vec<u32>)
    requires
        is_read(values@, cells),
        is_ordered_kind(dtype, cells),
        ascends(left@, cells, reverse),
        ascends(right@, cells, reverse),
        0 <= lo <= mid <= hi <= cells.len(),
        left@.len() == mid - lo,
        right@.len() == hi - mid,
        forall|i: int| 0 <= i < left@.len() ==> lo <= #[trigger] left@[i] < mid,
        forall|i: int| 0 <= i < right@.len() ==> mid <= #[trigger] right@[i] < hi,
    ensures
        ascends(out@, cells, reverse),
        out@.len() == hi - lo,
        forall|i: int| 0 <= i < out@.len() ==> lo <= #[trigger] out@[i] < hi,
{
    let mut out: Vec<u32> = Vec::new();
    let mut i: usize = 0;
    let mut j: usize = 0;
    while i < left.len() || j < right.len()
        invariant
            is_read(values@, cells),
            is_ordered_kind(dtype, cells),
            ascends(left@, cells, reverse),
            ascends(right@, cells, reverse),
            0 <= lo <= mid <= hi <= cells.len(),
            left@.len() == mid - lo,
            right@.len() == hi - mid,
            forall|k: int| 0 <= k < left@.len() ==> lo <= #[trigger] left@[k] < mid,
            forall|k: int| 0 <= k < right@.len() ==> mid <= #[trigger] right@[k] < hi,
            i <= left@.len(),
            j <= right@.len(),
            out@.len() == i + j,
            ascends(out@, cells, reverse),
            forall|k: int| 0 <= k < out@.len() ==> lo <= #[trigger] out@[k] < hi,
            forall|s: int, t: int|
                0 <= s < out@.len() && i <= t < left@.len() ==> comes_before(
                    cells,
                    reverse,
                    #[trigger] out@[s] as int,
                    #[trigger] left@[t] as int,
                ),
            forall|s: int, t: int|
                0 <= s < out@.len() && j <= t < right@.len() ==> comes_before(
                    cells,
                    reverse,
                    #[trigger] out@[s] as int,
                    #[trigger] right@[t] as int,
                ),
        decreases left@.len() - i + right@.len() - j,
    {
        let from_left = if i >= left.len() {
            false
        } else if j >= right.len() {
            true
        } else {
            before(values, reverse, left[i], right[j], Ghost(cells))
        };
        let ghost old_out = out@;
        if from_left {
            let p = left[i];
            proof {
                assert forall|t: int| j <= t < right@.len() implies comes_before(
                    cells,
                    reverse,
                    p as int,
                    #[trigger] right@[t] as int,
                ) by {
                    if t > j {
                        assert(comes_before(cells, reverse, right@[j as int] as int, right@[t] as int));
                        lemma_before_transitive(
                            dtype,
                            cells,
                            reverse,
                            p as int,
                            right@[j as int] as int,
                            right@[t] as int,
                        );
                    }
                }
                assert forall|t: int| i < t < left@.len() implies comes_before(
                    cells,
                    reverse,
                    p as int,
                    #[trigger] left@[t] as int,
                ) by {
                    assert(comes_before(cells, reverse, left@[i as int] as int, left@[t] as int));
                }
            }
            out.push(p);
            i += 1;
        } else {
            let p = right[j];
            proof {
                if i < left@.len() {
                    assert(left@[i as int] != p);
                    lemma_before_total(dtype, cells, reverse, left@[i as int] as int, p as int);
                }
                assert forall|t: int| i <= t < left@.len() implies comes_before(
                    cells,
                    reverse,
                    p as int,
                    #[trigger] left@[t] as int,
                ) by {
                    if t > i {
                        assert(comes_before(cells, reverse, left@[i as int] as int, left@[t] as int));
                        lemma_before_transitive(
                            dtype,
                            cells,
                            reverse,
                            p as int,
                            left@[i as int] as int,
                            left@[t] as int,
                        );
                    }
                }
                assert forall|t: int| j < t < right@.len() implies comes_before(
                    cells,
                    reverse,
                    p as int,
                    #[trigger] right@[t] as int,
                ) by {
                    assert(comes_before(cells, reverse, right@[j as int] as int, right@[t] as int));
                }
            }
            out.push(p);
            j += 1;
        }
        proof {
            let n = old_out.len() as int;
            assert(out@ =~= old_out.push(out@[n]));
            assert forall|s: int, t: int| 0 <= s < t < out@.len() implies comes_before(
                cells,
                reverse,
                #[trigger] out@[s] as int,
                #[trigger] out@[t] as int,
            ) by {
                if t < n {
                    assert(out@[s] == old_out[s] && out@[t] == old_out[t]);
                } else {
                    assert(out@[s] == old_out[s]);
                }
            }
        }
    }
    out
}

/// The positions from `lo` up to `hi`, each before those that follow it in
/// the sorted series.
fn sort_range(
    values: &Vec<Scalar>,
    reverse: bool,
    lo: usize,
    hi: usize,
    Ghost(dtype): Ghost<Dtype>,
    Ghost(cells): Ghost<Seq<Cell>>,
) -> (out: Vec<u32>)
    requires
        is_read(values@, cells),
        is_ordered_kind(dtype, cells),
        lo <= hi <= cells.len() <= u32::MAX,
    ensures
        ascends(out@, cells, reverse),
        out@.len() == hi - lo,
        forall|i: int| 0 <= i < out@.len() ==> lo <= #[trigger] out@[i] < hi,
    decreases hi - lo,
{
    let mut out: Vec<u32> = Vec::new();
    if hi - lo == 0 {
        return out;
    }
    if hi - lo == 1 {
        out.push(lo as u32);
        return out;
    }
    let mid = lo + (hi - lo) / 2;
    let left = sort_range(values, reverse, lo, mid, Ghost(dtype), Ghost(cells));
    let right = sort_range(values, reverse, mid, hi, Ghost(dtype), Ghost(cells));
    merge(
        values,
        reverse,
        &left,
        &right,
        Ghost(dtype),
        Ghost(cells),
        Ghost(lo as int),
        Ghost(mid as int),
        Ghost(hi as int),
    )
}

/// The positions that sort the cells read from a column.
pub(crate) fn sort_positions(
    values: &Vec<Scalar>,
    reverse: bool,
    Ghost(dtype): Ghost<Dtype>,
    Ghost(cells): Ghost<Seq<Cell>>,
) -> (out: Vec<u32>)
    requires
        is_read(values@, cells),
        is_ordered_kind(dtype, cells),
        cells.len() <= u32::MAX,
    ensures
        is_sorting(out@, cells, reverse),
{
    let out = sort_range(values, reverse, 0, values.len(), Ghost(dtype), Ghost(cells));
    proof {
        lemma_ascending_is_distinct(dtype, out@, cells, reverse);
    }
    out
}

/// The cells read from a series that can be sorted, or why it cannot.
fn sortable(data: &ExSeries) -> (r: Result<Vec<Scalar>, ExplorerError>)
    ensures
        match data@.dtype {
            None => fails(r, ExplorerError::TypeMismatch),
            Some(dtype) => if data@.cells.len() > u32::MAX || has_nan(data@.cells) {
                fails(r, ExplorerError::OutOfRange)
            } else {
                r is Ok && is_read(r.unwrap()@, data@.cells) && is_ordered_kind(dtype, data@.cells)
            },
        },
{
    if series_dtype_of(&data.series).is_none() {
        return Err(ExplorerError::TypeMismatch);
    }
    if series_len(&data.series) > u32::MAX as usize {
        return Err(ExplorerError::OutOfRange);
    }
    let values = read_cells(&data.series);
    if holds_nan(&values, Ghost(data@.cells)) {
        return Err(ExplorerError::OutOfRange);
    }
    Ok(values)
}

/// What sorting a series gives: a series of the same name and dtype that
/// holds the cells in order: ascending with the nulls first, or descending
/// with the nulls last. Floats are ordered as numbers. Equal cells keep the
/// order of their positions.
///
/// `TypeMismatch` for a column of none of the six dtypes; `OutOfRange` for a
/// series of more than `u32::MAX` cells, whose positions the engine cannot
/// count, and for floats with a NaN among them, which has no place in the
/// order.
pub open spec fn gives_sorted(r: Result<ExSeries, ExplorerError>, data: SeriesView, reverse: bool) -> bool {
    match data.dtype {
        None => fails(r, ExplorerError::TypeMismatch),
        Some(dtype) => if data.cells.len() > u32::MAX || has_nan(data.cells) {
            fails(r, ExplorerError::OutOfRange)
        } else {
            r is Ok && r.unwrap()@.name == data.name && r.unwrap()@.dtype == data.dtype
                && is_sorted_copy(r.unwrap()@.cells, data.cells, reverse)
        },
    }
}

/// The series sorted; see `gives_sorted`.
pub fn s_sort(data: &ExSeries, reverse: bool) -> (r: Result<ExSeries, ExplorerError>)
    ensures
        gives_sorted(r, data@, reverse),
{
    let values = sortable(data)?;
    let order = sort_positions(
        &values,
        reverse,
        Ghost(data@.dtype.unwrap()),
        Ghost(data@.cells),
    );
    Ok(ExSeries::new(series_take(&data.series, &order)))
}

/// What the positions that sort a series are: every position once, such
/// that the cells at these positions are in the order of the sort, equal
/// cells in the order of their positions.
///
/// `TypeMismatch` for a column of none of the six dtypes; `OutOfRange` for a
/// series of more than `u32::MAX` cells and for floats with a NaN among
/// them.
pub open spec fn gives_argsort(
    r: Result<Vec<Option<u32>>, ExplorerError>,
    data: SeriesView,
    reverse: bool,
) -> bool {
    match data.dtype {
        None => fails(r, ExplorerError::TypeMismatch),
        Some(dtype) => if data.cells.len() > u32::MAX || has_nan(data.cells) {
            fails(r, ExplorerError::OutOfRange)
        } else {
            r is Ok && (forall|i: int| 0 <= i < r.unwrap()@.len() ==> #[trigger] r.unwrap()@[i] is Some)
                && is_sorting(positions_of(r.unwrap()@), data.cells, reverse)
        },
    }
}

/// The positions that a list of optional positions holds.
pub open spec fn positions_of(order: Seq<Option<u32>>) -> Seq<u32> {
    Seq::new(order.len(), |i: int| order[i].unwrap())
}

/// The positions that sort the series; see `gives_argsort`.
pub fn s_argsort(data: &ExSeries, reverse: bool) -> (r: Result<Vec<Option<u32>>, ExplorerError>)
    ensures
        gives_argsort(r, data@, reverse),
{
    let values = sortable(data)?;
    let order = sort_positions(
        &values,
        reverse,
        Ghost(data@.dtype.unwrap()),
        Ghost(data@.cells),
    );
    let mut out: Vec<Option<u32>> = Vec::new();
    let mut i: usize = 0;
    while i < order.len()
        invariant
            i <= order@.len(),
            out@.len() == i,
            forall|j: int| 0 <= j < i ==> #[trigger] out@[j] == Some(order@[j]),
        decreases order@.len() - i,
    {
        out.push(Some(order[i]));
        i += 1;
    }
    proof {
        assert(positions_of(out@) =~= order@);
    }
    Ok(out)
}

/// Taking the cells at the positions that sort a series gives the sorted
/// series.
pub proof fn lemma_argsort_take_sort(
    data: SeriesView,
    reverse: bool,
    order: Result<Vec<Option<u32>>, ExplorerError>,
    sorted: Result<ExSeries, ExplorerError>,
)
    requires
        data.dtype is Some,
        cells_fit(data.dtype.unwrap(), data.cells),
        data.cells.len() <= u32::MAX,
        !has_nan(data.cells),
        gives_argsort(order, data, reverse),
        gives_sorted(sorted, data, reverse),
    ensures
        gather_cells(data.cells, positions_of(order.unwrap()@)) == sorted.unwrap()@.cells,
{
    lemma_argsort_then_take_is_sort(
        data.dtype.unwrap(),
        data.cells,
        positions_of(order.unwrap()@),
        sorted.unwrap()@.cells,
        reverse,
    );
}

} // verus!
