//! The order in which a series is sorted, and why a sorted series is unique.

use vstd::prelude::*;
use vstd::set_lib::{lemma_int_range, lemma_subset_equality, set_int_range};
use crate::dtype::Dtype;
use crate::model::{cell_fits, cell_less, cells_fit, gather_cells, has_nan, is_nan_bits, str_less};
use crate::scalar::Cell;

verus! {

/// Whether a cell stands before another in a sorted series because of
/// what it holds: ascending a null before any value and a value before a
/// greater one, descending a value before a smaller one and before any
/// null.
pub open spec fn value_before(a: Cell, b: Cell, reverse: bool) -> bool {
    if reverse {
        (b is Null && !(a is Null)) || cell_less(b, a)
    } else {
        (a is Null && !(b is Null)) || cell_less(a, b)
    }
}

/// Whether position `p` stands before position `q` when a series is
/// sorted: by what the cells hold, and by the positions where the cells do
/// not decide.
pub open spec fn comes_before(cells: Seq<Cell>, reverse: bool, p: int, q: int) -> bool {
    value_before(cells[p], cells[q], reverse) || (!value_before(cells[q], cells[p], reverse) && p
        < q)
}

/// Whether `order` lists every position of a series of `len` cells once.
pub open spec fn is_permutation(order: Seq<u32>, len: nat) -> bool {
    &&& order.len() == len
    &&& forall|i: int| 0 <= i < order.len() ==> #[trigger] order[i] < len
    &&& forall|i: int, j: int|
        0 <= i < j < order.len() ==> #[trigger] order[i] != #[trigger] order[j]
}

/// Whether the positions in `order` are positions of `cells`, each before
/// those that follow it.
pub open spec fn ascends(order: Seq<u32>, cells: Seq<Cell>, reverse: bool) -> bool {
    &&& forall|i: int| 0 <= i < order.len() ==> #[trigger] order[i] < cells.len()
    &&& forall|i: int, j: int|
        0 <= i < j < order.len() ==> comes_before(
            cells,
            reverse,
            #[trigger] order[i] as int,
            #[trigger] order[j] as int,
        )
}

/// Whether `order` lists the positions of `cells` in the order of the sort:
/// every position once, the cells in order, equal cells in the order of
/// their positions.
pub open spec fn is_sorting(order: Seq<u32>, cells: Seq<Cell>, reverse: bool) -> bool {
    is_permutation(order, cells.len()) && ascends(order, cells, reverse)
}

/// Whether `out` holds the cells of `cells` in the order of the sort.
pub open spec fn is_sorted_copy(out: Seq<Cell>, cells: Seq<Cell>, reverse: bool) -> bool {
    exists|order: Seq<u32>| is_sorting(order, cells, reverse) && out == gather_cells(cells, order)
}

/// Whether the cells can be ordered: they are cells of one dtype, and none
/// is a float that is not a number.
pub open spec fn is_ordered_kind(dtype: Dtype, cells: Seq<Cell>) -> bool {
    cells_fit(dtype, cells) && !has_nan(cells)
}

/// Of two strings that differ, one comes before the other, and never both.
pub proof fn lemma_str_less_total(a: Seq<char>, b: Seq<char>)
    ensures
        a == b || str_less(a, b) || str_less(b, a),
        !(str_less(a, b) && str_less(b, a)),
    decreases a.len(),
{
    if a.len() == 0 || b.len() == 0 {
        if a.len() == 0 && b.len() == 0 {
            assert(a =~= b);
        }
    } else if a[0] == b[0] {
        lemma_str_less_total(a.skip(1), b.skip(1));
        if a.skip(1) == b.skip(1) {
            assert forall|i: int| 0 <= i < a.len() implies a[i] == b[i] by {
                if i > 0 {
                    assert(a[i] == a.skip(1)[i - 1]);
                    assert(b[i] == b.skip(1)[i - 1]);
                }
            }
            assert(a.len() == a.skip(1).len() + 1);
            assert(b.len() == b.skip(1).len() + 1);
            assert(a =~= b);
        }
    }
}

/// What comes before a string that comes before a third, comes before the
/// third.
pub proof fn lemma_str_less_transitive(a: Seq<char>, b: Seq<char>, c: Seq<char>)
    requires
        str_less(a, b),
        str_less(b, c),
    ensures
        str_less(a, c),
    decreases a.len(),
{
    if a.len() > 0 && a[0] == b[0] && b[0] == c[0] {
        lemma_str_less_transitive(a.skip(1), b.skip(1), c.skip(1));
    }
}

/// The order of the values: no two values stand before each other, what
/// stands before a value stands before what follows it, and values of which
/// neither stands before the other are alike in this.
pub proof fn lemma_value_order(dtype: Dtype, a: Cell, b: Cell, c: Cell, reverse: bool)
    requires
        cell_fits(dtype, a),
        cell_fits(dtype, b),
        cell_fits(dtype, c),
        !(a matches Cell::Float(x) && is_nan_bits(x)),
        !(b matches Cell::Float(x) && is_nan_bits(x)),
        !(c matches Cell::Float(x) && is_nan_bits(x)),
    ensures
        !(value_before(a, b, reverse) && value_before(b, a, reverse)),
        value_before(a, b, reverse) && value_before(b, c, reverse) ==> value_before(a, c, reverse),
        value_before(a, b, reverse) && !value_before(c, b, reverse) ==> value_before(a, c, reverse),
        !value_before(b, a, reverse) && value_before(b, c, reverse) ==> value_before(a, c, reverse),
{
    match (a, b, c) {
        (Cell::Str(x), Cell::Str(y), Cell::Str(z)) => {
            lemma_str_less_total(x, y);
            lemma_str_less_total(y, z);
            lemma_str_less_total(x, z);
            if str_less(x, y) && str_less(y, z) {
                lemma_str_less_transitive(x, y, z);
            }
            if str_less(z, y) && str_less(y, x) {
                lemma_str_less_transitive(z, y, x);
            }
        },
        (Cell::Str(x), Cell::Str(y), _) => {
            lemma_str_less_total(x, y);
        },
        _ => {},
    }
}

/// No position stands before itself, and of two positions one stands before
/// the other, never both.
pub proof fn lemma_before_total(dtype: Dtype, cells: Seq<Cell>, reverse: bool, p: int, q: int)
    requires
        is_ordered_kind(dtype, cells),
        0 <= p < cells.len(),
        0 <= q < cells.len(),
    ensures
        !(comes_before(cells, reverse, p, q) && comes_before(cells, reverse, q, p)),
        p != q ==> comes_before(cells, reverse, p, q) || comes_before(cells, reverse, q, p),
{
    lemma_value_order(dtype, cells[p], cells[q], cells[p], reverse);
}

/// A position that stands before another stands before those that the
/// other stands before.
pub proof fn lemma_before_transitive(
    dtype: Dtype,
    cells: Seq<Cell>,
    reverse: bool,
    p: int,
    q: int,
    r: int,
)
    requires
        is_ordered_kind(dtype, cells),
        0 <= p < cells.len(),
        0 <= q < cells.len(),
        0 <= r < cells.len(),
        comes_before(cells, reverse, p, q),
        comes_before(cells, reverse, q, r),
    ensures
        comes_before(cells, reverse, p, r),
{
    lemma_value_order(dtype, cells[p], cells[q], cells[r], reverse);
    lemma_value_order(dtype, cells[r], cells[q], cells[p], reverse);
    lemma_value_order(dtype, cells[q], cells[p], cells[r], reverse);
    lemma_value_order(dtype, cells[q], cells[r], cells[p], reverse);
    lemma_value_order(dtype, cells[p], cells[r], cells[q], reverse);
    lemma_value_order(dtype, cells[r], cells[p], cells[q], reverse);
}

/// Positions that ascend hold no position twice.
pub proof fn lemma_ascending_is_distinct(dtype: Dtype, order: Seq<u32>, cells: Seq<Cell>, reverse: bool)
    requires
        is_ordered_kind(dtype, cells),
        ascends(order, cells, reverse),
    ensures
        forall|i: int, j: int|
            0 <= i < j < order.len() ==> #[trigger] order[i] != #[trigger] order[j],
{
    assert forall|i: int, j: int| 0 <= i < j < order.len() implies #[trigger] order[i]
        != #[trigger] order[j] by {
        lemma_before_total(dtype, cells, reverse, order[i] as int, order[j] as int);
    }
}

/// A list of every position holds each position somewhere.
pub proof fn lemma_permutation_holds(order: Seq<u32>, len: nat, p: u32)
    requires
        is_permutation(order, len),
        p < len,
    ensures
        exists|i: int| 0 <= i < order.len() && order[i] == p,
{
    let places = Seq::new(order.len(), |i: int| order[i] as int);
    assert forall|i: int, j: int| 0 <= i < places.len() && 0 <= j < places.len() && i != j implies places[i]
        != places[j] by {
        if i < j {
            assert(order[i] != order[j]);
        } else {
            assert(order[j] != order[i]);
        }
    }
    places.unique_seq_to_set();
    lemma_int_range(0, len as int);
    assert(places.to_set().subset_of(set_int_range(0, len as int))) by {
        assert forall|v: int| places.to_set().contains(v) implies set_int_range(
            0,
            len as int,
        ).contains(v) by {
            let i = choose|i: int| 0 <= i < places.len() && places[i] == v;
            assert(order[i] < len);
        }
    }
    broadcast use vstd::seq_lib::group_seq_properties;
    lemma_subset_equality(places.to_set(), set_int_range(0, len as int));
    assert(set_int_range(0, len as int).contains(p as int));
    assert(places.to_set().contains(p as int));
    let i = choose|i: int| 0 <= i < places.len() && places[i] == p as int;
    assert(order[i] == p);
}

/// Two lists that sort a series agree up to any place.
proof fn lemma_sortings_agree(
    dtype: Dtype,
    cells: Seq<Cell>,
    reverse: bool,
    a: Seq<u32>,
    b: Seq<u32>,
    n: int,
)
    requires
        is_ordered_kind(dtype, cells),
        is_sorting(a, cells, reverse),
        is_sorting(b, cells, reverse),
        0 <= n <= cells.len(),
    ensures
        forall|i: int| 0 <= i < n ==> a[i] == b[i],
    decreases n,
{
    if n > 0 {
        lemma_sortings_agree(dtype, cells, reverse, a, b, n - 1);
        let i = n - 1;
        if a[i] != b[i] {
            lemma_permutation_holds(b, cells.len(), a[i]);
            let j = choose|j: int| 0 <= j < b.len() && b[j] == a[i];
            lemma_permutation_holds(a, cells.len(), b[i]);
            let k = choose|k: int| 0 <= k < a.len() && a[k] == b[i];
            if j < i {
                assert(a[j] == b[j]);
                assert(a[j] != a[i]);
            }
            if k < i {
                assert(a[k] == b[k]);
                assert(b[k] != b[i]);
            }
            assert(comes_before(cells, reverse, b[i] as int, b[j] as int));
            assert(comes_before(cells, reverse, a[i] as int, a[k] as int));
            lemma_before_total(dtype, cells, reverse, a[i] as int, b[i] as int);
        }
    }
}

/// A series is sorted by one list of positions only.
pub proof fn lemma_sorting_unique(
    dtype: Dtype,
    cells: Seq<Cell>,
    reverse: bool,
    a: Seq<u32>,
    b: Seq<u32>,
)
    requires
        is_ordered_kind(dtype, cells),
        is_sorting(a, cells, reverse),
        is_sorting(b, cells, reverse),
    ensures
        a == b,
{
    lemma_sortings_agree(dtype, cells, reverse, a, b, cells.len() as int);
    assert(a =~= b);
}

/// The cells taken at the positions that sort a series are the sorted
/// series.
pub proof fn lemma_argsort_then_take_is_sort(
    dtype: Dtype,
    cells: Seq<Cell>,
    order: Seq<u32>,
    sorted: Seq<Cell>,
    reverse: bool,
)
    requires
        is_ordered_kind(dtype, cells),
        is_sorting(order, cells, reverse),
        is_sorted_copy(sorted, cells, reverse),
    ensures
        gather_cells(cells, order) == sorted,
{
    let other = choose|other: Seq<u32>|
        is_sorting(other, cells, reverse) && sorted == gather_cells(cells, other);
    lemma_sorting_unique(dtype, cells, reverse, order, other);
}

/// In a sorted series no cell stands after one that it stands before: the
/// nulls come first and the values ascend, or the values descend and the
/// nulls come last.
pub proof fn lemma_sorted_copy_is_in_order(
    dtype: Dtype,
    out: Seq<Cell>,
    cells: Seq<Cell>,
    reverse: bool,
)
    requires
        is_ordered_kind(dtype, cells),
        is_sorted_copy(out, cells, reverse),
    ensures
        out.len() == cells.len(),
        forall|i: int, j: int|
            0 <= i < j < out.len() ==> !value_before(#[trigger] out[j], #[trigger] out[i], reverse),
{
    let order = choose|order: Seq<u32>|
        is_sorting(order, cells, reverse) && out == gather_cells(cells, order);
    assert forall|i: int, j: int| 0 <= i < j < out.len() implies !value_before(
        #[trigger] out[j],
        #[trigger] out[i],
        reverse,
    ) by {
        assert(comes_before(cells, reverse, order[i] as int, order[j] as int));
        lemma_before_total(dtype, cells, reverse, order[i] as int, order[j] as int);
        lemma_value_order(dtype, cells[order[i] as int], cells[order[j] as int], cells[order[i] as int], reverse);
    }
}

} // verus!
