//! The mathematical model of a series and of the operations on it.

use vstd::prelude::*;
use crate::dtype::Dtype;
use crate::scalar::Cell;

verus! {

/// What a series is to a contract: a name, a dtype and one cell per position.
///
/// `dtype` is `None` for a column of the engine whose element type is none of
/// the six that this crate works on.
pub struct SeriesView {
    pub name: Seq<char>,
    pub dtype: Option<Dtype>,
    pub cells: Seq<Cell>,
}

/// Whether a cell may stand in a series of the given dtype.
pub open spec fn cell_fits(dtype: Dtype, cell: Cell) -> bool {
    match cell {
        Cell::Null => true,
        Cell::Bool(_) => dtype == Dtype::Boolean,
        Cell::Int(i) => match dtype {
            Dtype::Int64 | Dtype::Date64 => i64::MIN <= i <= i64::MAX,
            Dtype::Date32 => i32::MIN <= i <= i32::MAX,
            _ => false,
        },
        Cell::Float(_) => dtype == Dtype::Float64,
        Cell::Str(_) => dtype == Dtype::Utf8,
    }
}

/// Whether every cell may stand in a series of the given dtype.
pub open spec fn cells_fit(dtype: Dtype, cells: Seq<Cell>) -> bool {
    forall|i: int| 0 <= i < cells.len() ==> cell_fits(dtype, #[trigger] cells[i])
}

/// How many cells of a column the engine prints at most: of a longer column
/// the first and the last twelve.
pub const SHOWN_ROWS: usize = 25;

/// The first day that the engine's calendar holds, counted from the epoch:
/// 1 January of the year -262143.
pub const FIRST_DAY: i64 = -96_465_292;

/// The last day that the engine's calendar holds, counted from the epoch:
/// 31 December of the year 262142.
pub const LAST_DAY: i64 = 95_026_236;

/// The first millisecond of the first day of the engine's calendar.
pub const FIRST_MOMENT: i64 = -8_334_601_228_800_000;

/// The last millisecond of the last day of the engine's calendar.
pub const LAST_MOMENT: i64 = 8_210_266_876_799_999;

/// Whether the engine prints the cell at a position of a column of `len`
/// cells.
pub open spec fn is_shown(len: nat, i: int) -> bool {
    0 <= i < len && (len <= SHOWN_ROWS || i < SHOWN_ROWS / 2 || i >= len - SHOWN_ROWS / 2)
}

/// Whether the engine can print a cell. It prints a date through its
/// calendar, which holds the days from `FIRST_DAY` to `LAST_DAY`; of the
/// moments before the epoch it prints the whole seconds only.
pub open spec fn cell_prints(dtype: Dtype, cell: Cell) -> bool {
    match cell {
        Cell::Int(v) => match dtype {
            Dtype::Date32 => FIRST_DAY <= v <= LAST_DAY,
            Dtype::Date64 => (0 <= v <= LAST_MOMENT) || (FIRST_MOMENT <= v < 0 && (-v) % 1000 == 0),
            _ => true,
        },
        _ => true,
    }
}

/// Whether the engine can print every cell that it shows of a column.
pub open spec fn prints(dtype: Dtype, cells: Seq<Cell>) -> bool {
    forall|i: int| is_shown(cells.len(), i) ==> cell_prints(dtype, #[trigger] cells[i])
}

/// In how many pieces a column is stored to which another was joined: in
/// those of both, but for an empty column in one piece, which gives way to
/// the pieces of the other.
pub open spec fn joined_chunks(first: nat, first_len: nat, second: nat) -> nat {
    if first == 1 && first_len == 0 {
        second
    } else {
        first + second
    }
}

/// The cells of a column built from optional integers.
pub open spec fn int_cells(values: Seq<Option<i64>>) -> Seq<Cell> {
    Seq::new(
        values.len(),
        |i: int|
            match values[i] {
                Some(v) => Cell::Int(v as int),
                None => Cell::Null,
            },
    )
}

/// The cells of a column built from optional booleans.
pub open spec fn bool_cells(values: Seq<Option<bool>>) -> Seq<Cell> {
    Seq::new(
        values.len(),
        |i: int|
            match values[i] {
                Some(v) => Cell::Bool(v),
                None => Cell::Null,
            },
    )
}

/// The cells of a column built from optional strings.
pub open spec fn str_cells(values: Seq<Option<String>>) -> Seq<Cell> {
    Seq::new(
        values.len(),
        |i: int|
            match values[i] {
                Some(v) => Cell::Str(v@),
                None => Cell::Null,
            },
    )
}

/// The number of null cells.
pub open spec fn null_count(cells: Seq<Cell>) -> nat
    decreases cells.len(),
{
    if cells.len() == 0 {
        0
    } else {
        null_count(cells.drop_last()) + if cells.last() is Null {
            1nat
        } else {
            0nat
        }
    }
}

/// The number of cells that hold `true`. A null counts as not true.
pub open spec fn count_true(mask: Seq<Cell>) -> nat
    decreases mask.len(),
{
    if mask.len() == 0 {
        0
    } else {
        count_true(mask.drop_last()) + if mask.last() == Cell::Bool(true) {
            1nat
        } else {
            0nat
        }
    }
}

/// The cells at the positions where the mask holds `true`, in order.
pub open spec fn filter_cells(cells: Seq<Cell>, mask: Seq<Cell>) -> Seq<Cell>
    recommends
        cells.len() == mask.len(),
    decreases cells.len(),
{
    if cells.len() == 0 || mask.len() == 0 {
        Seq::empty()
    } else {
        let rest = filter_cells(cells.drop_last(), mask.drop_last());
        if mask.last() == Cell::Bool(true) {
            rest.push(cells.last())
        } else {
            rest
        }
    }
}

/// The cells that are not null, in order.
pub open spec fn drop_null_cells(cells: Seq<Cell>) -> Seq<Cell>
    decreases cells.len(),
{
    if cells.len() == 0 {
        Seq::empty()
    } else {
        let rest = drop_null_cells(cells.drop_last());
        if cells.last() is Null {
            rest
        } else {
            rest.push(cells.last())
        }
    }
}

/// The positions at which the mask holds `true`, ascending.
pub open spec fn true_positions(mask: Seq<Cell>) -> Seq<int>
    decreases mask.len(),
{
    if mask.len() == 0 {
        Seq::empty()
    } else {
        let rest = true_positions(mask.drop_last());
        if mask.last() == Cell::Bool(true) {
            rest.push(mask.len() - 1)
        } else {
            rest
        }
    }
}

/// One boolean cell per position: whether the cell there is null.
pub open spec fn is_null_cells(cells: Seq<Cell>) -> Seq<Cell> {
    Seq::new(cells.len(), |i: int| Cell::Bool(cells[i] is Null))
}

/// One boolean cell per position: whether the cell there is not null.
pub open spec fn is_not_null_cells(cells: Seq<Cell>) -> Seq<Cell> {
    Seq::new(cells.len(), |i: int| Cell::Bool(!(cells[i] is Null)))
}

/// Each boolean negated; a null stays null.
pub open spec fn not_cells(cells: Seq<Cell>) -> Seq<Cell> {
    Seq::new(
        cells.len(),
        |i: int|
            match cells[i] {
                Cell::Bool(b) => Cell::Bool(!b),
                c => c,
            },
    )
}

/// The cells in reverse order.
pub open spec fn reverse_cells(cells: Seq<Cell>) -> Seq<Cell> {
    Seq::new(cells.len(), |i: int| cells[cells.len() - 1 - i])
}

/// The cells at the given positions, in the order of the positions.
pub open spec fn gather_cells(cells: Seq<Cell>, indices: Seq<u32>) -> Seq<Cell>
    recommends
        forall|i: int| 0 <= i < indices.len() ==> indices[i] < cells.len(),
{
    Seq::new(indices.len(), |i: int| cells[indices[i] as int])
}

/// Every `n`-th cell, starting with the first.
pub open spec fn every_nth_cells(cells: Seq<Cell>, n: nat) -> Seq<Cell>
    recommends
        n > 0,
{
    Seq::new(((cells.len() + n - 1) / n as int) as nat, |i: int| cells[i * n])
}

/// Where a slice starts and how many cells it has, for a series of `len`
/// cells. A negative offset counts from the end; what lies outside the series
/// is cut off.
pub open spec fn slice_bounds(offset: int, length: nat, len: nat) -> (nat, nat) {
    if offset < 0 {
        if -offset <= len {
            ((len + offset) as nat, if length <= -offset { length } else { (-offset) as nat })
        } else {
            (0, if length <= len { length } else { len })
        }
    } else if offset <= len {
        (offset as nat, if length <= len - offset { length } else { (len - offset) as nat })
    } else {
        (len, 0)
    }
}

/// The cells of a slice.
pub open spec fn slice_cells(cells: Seq<Cell>, offset: int, length: nat) -> Seq<Cell> {
    let (start, count) = slice_bounds(offset, length, cells.len());
    cells.subrange(start as int, (start + count) as int)
}

/// The first `n` cells, or all of them if there are fewer.
pub open spec fn head_cells(cells: Seq<Cell>, n: nat) -> Seq<Cell> {
    cells.subrange(0, if n <= cells.len() { n as int } else { cells.len() as int })
}

/// The last `n` cells, or all of them if there are fewer.
pub open spec fn tail_cells(cells: Seq<Cell>, n: nat) -> Seq<Cell> {
    cells.subrange(if n <= cells.len() { cells.len() - n } else { 0 }, cells.len() as int)
}

/// The cells moved by `periods` positions, towards the end if positive and
/// towards the start if negative; what moves out is lost, what moves in is
/// null.
pub open spec fn shift_cells(cells: Seq<Cell>, periods: int) -> Seq<Cell> {
    Seq::new(
        cells.len(),
        |i: int|
            if 0 <= i - periods < cells.len() {
                cells[i - periods]
            } else {
                Cell::Null
            },
    )
}

/// Filtering keeps as many cells as the mask holds `true`.
pub proof fn lemma_filter_len(cells: Seq<Cell>, mask: Seq<Cell>)
    requires
        cells.len() == mask.len(),
    ensures
        filter_cells(cells, mask).len() == count_true(mask),
    decreases cells.len(),
{
    if cells.len() > 0 {
        lemma_filter_len(cells.drop_last(), mask.drop_last());
    }
}

/// Dropping the nulls leaves no null, and takes away as many cells as there
/// were nulls.
pub proof fn lemma_drop_nulls(cells: Seq<Cell>)
    ensures
        null_count(drop_null_cells(cells)) == 0,
        drop_null_cells(cells).len() == cells.len() - null_count(cells),
    decreases cells.len(),
{
    if cells.len() > 0 {
        lemma_drop_nulls(cells.drop_last());
        let rest = drop_null_cells(cells.drop_last());
        if !(cells.last() is Null) {
            assert(rest.push(cells.last()).drop_last() =~= rest);
        }
    }
}

/// Whether a series has a cell that is not null.
pub open spec fn has_value(cells: Seq<Cell>) -> bool {
    exists|i: int| 0 <= i < cells.len() && !(#[trigger] cells[i] is Null)
}

/// The dtype pairs that the engine converts in one step.
pub open spec fn castable(from: Dtype, to: Dtype) -> bool {
    from == to || match (from, to) {
        (Dtype::Boolean, Dtype::Int64) | (Dtype::Boolean, Dtype::Float64) | (
            Dtype::Boolean,
            Dtype::Utf8,
        ) => true,
        (Dtype::Int64, _) => true,
        (Dtype::Float64, Dtype::Boolean) | (Dtype::Float64, Dtype::Int64) | (
            Dtype::Float64,
            Dtype::Utf8,
        ) => true,
        (Dtype::Utf8, Dtype::Int64) | (Dtype::Utf8, Dtype::Float64) | (
            Dtype::Utf8,
            Dtype::Date32,
        ) | (Dtype::Utf8, Dtype::Date64) => true,
        (Dtype::Date32, Dtype::Int64) | (Dtype::Date32, Dtype::Date64) => true,
        (Dtype::Date64, Dtype::Int64) | (Dtype::Date64, Dtype::Date32) => true,
        _ => false,
    }
}

/// What the engine makes of one value when it converts a column from one
/// dtype to another: the result of parsing, formatting, rounding or scaling.
/// It is null where the value has no counterpart in the target dtype.
pub uninterp spec fn cast_value(from: Dtype, to: Dtype, cell: Cell) -> Cell;

/// What becomes of a cell where it does not depend on the engine's parsing,
/// formatting, rounding or scaling: a null stays null, a value stays as it is
/// under its own dtype, a boolean is 1 or 0 as an integer, an integer is
/// `true` as a boolean unless it is 0, a date keeps its count as an integer,
/// and an integer is the date of that count if the dates reach so far.
pub open spec fn known_cast(from: Dtype, to: Dtype, cell: Cell) -> Option<Cell> {
    if cell is Null || from == to {
        Some(cell)
    } else {
        match (from, to, cell) {
            (Dtype::Boolean, Dtype::Int64, Cell::Bool(b)) => Some(
                Cell::Int(
                    if b {
                        1
                    } else {
                        0
                    },
                ),
            ),
            (Dtype::Int64, Dtype::Boolean, Cell::Int(i)) => Some(Cell::Bool(i != 0)),
            (Dtype::Int64, Dtype::Date64, Cell::Int(_)) => Some(cell),
            (Dtype::Int64, Dtype::Date32, Cell::Int(i)) if i32::MIN <= i <= i32::MAX => Some(cell),
            (Dtype::Date64, Dtype::Int64, Cell::Int(_)) => Some(cell),
            (Dtype::Date32, Dtype::Int64, Cell::Int(_)) => Some(cell),
            _ => None,
        }
    }
}

/// One cell converted.
pub open spec fn cast_cell(from: Dtype, to: Dtype, cell: Cell) -> Cell {
    match known_cast(from, to, cell) {
        Some(c) => c,
        None => cast_value(from, to, cell),
    }
}

/// Every cell converted.
pub open spec fn cast_cells(from: Dtype, to: Dtype, cells: Seq<Cell>) -> Seq<Cell> {
    Seq::new(cells.len(), |i: int| cast_cell(from, to, cells[i]))
}

/// The number that a cell counts as: an integer as itself, `true` as 1,
/// anything else as 0.
pub open spec fn cell_number(cell: Cell) -> int {
    match cell {
        Cell::Int(i) => i,
        Cell::Bool(b) => if b {
            1
        } else {
            0
        },
        _ => 0,
    }
}

/// The sum of the numbers that the cells count as.
pub open spec fn sum_cells(cells: Seq<Cell>) -> int
    decreases cells.len(),
{
    if cells.len() == 0 {
        0
    } else {
        sum_cells(cells.drop_last()) + cell_number(cells.last())
    }
}

/// `m` is the least number among the cells that are not null.
pub open spec fn is_least(cells: Seq<Cell>, m: int) -> bool {
    &&& exists|i: int|
        0 <= i < cells.len() && !(#[trigger] cells[i] is Null) && cell_number(cells[i]) == m
    &&& forall|i: int|
        0 <= i < cells.len() && !(#[trigger] cells[i] is Null) ==> m <= cell_number(cells[i])
}

/// `m` is the greatest number among the cells that are not null.
pub open spec fn is_greatest(cells: Seq<Cell>, m: int) -> bool {
    &&& exists|i: int|
        0 <= i < cells.len() && !(#[trigger] cells[i] is Null) && cell_number(cells[i]) == m
    &&& forall|i: int|
        0 <= i < cells.len() && !(#[trigger] cells[i] is Null) ==> m >= cell_number(cells[i])
}

/// The number of cells that are not null.
pub open spec fn value_count(cells: Seq<Cell>) -> int {
    cells.len() - null_count(cells)
}

/// The bits of the float that comes of adding the floats of a series one
/// after the other to the float of the given bits.
pub open spec fn float_sum_from(cells: Seq<Cell>, start: u64) -> u64
    decreases cells.len(),
{
    if cells.len() == 0 {
        start
    } else {
        let rest = float_sum_from(cells.drop_last(), start);
        match cells.last() {
            Cell::Float(x) => float_add(rest, x),
            _ => rest,
        }
    }
}

/// The bits of the sum of the floats of a series, added one after the other
/// to zero.
pub open spec fn float_sum_cells(cells: Seq<Cell>) -> u64 {
    float_sum_from(cells, 0)
}

/// The bits of a sum of floats divided by their number.
pub uninterp spec fn float_mean(sum: u64, count: int) -> u64;

/// Whether the float of the bits `m` is a least, or a greatest, float of a
/// series: it stands in the series, and no float of the series is less, or
/// greater, than it. Of a series with a NaN nothing is said.
pub open spec fn is_float_extreme(m: u64, cells: Seq<Cell>, least: bool) -> bool {
    !has_nan(cells) ==> (exists|i: int| 0 <= i < cells.len() && #[trigger] cells[i] == Cell::Float(m))
        && forall|i: int|
        0 <= i < cells.len() ==> match #[trigger] cells[i] {
            Cell::Float(x) => if least {
                !float_less(x, m)
            } else {
                !float_less(m, x)
            },
            _ => true,
        }
}

/// What a reduction of floats gives as a one-cell series where the float
/// itself is a matter of the machine: a float, or null if the series has no
/// value.
pub open spec fn is_float_summary(out: Seq<Cell>, of: Seq<Cell>) -> bool {
    out.len() == 1 && if has_value(of) {
        out[0] is Float
    } else {
        out[0] is Null
    }
}

/// What a reduction gives as a one-cell series: the cell, or null if the
/// series has no value.
pub open spec fn is_summary(out: Seq<Cell>, of: Seq<Cell>, cell: Cell) -> bool {
    out.len() == 1 && out[0] == if has_value(of) {
        cell
    } else {
        Cell::Null
    }
}

/// What the least or the greatest of a series is, as a one-cell series: null
/// if the series has no value, else the integer or the float that the
/// predicate picks.
pub open spec fn is_extreme_summary(out: Seq<Cell>, of: Seq<Cell>, dtype: Dtype, least: bool) -> bool {
    out.len() == 1 && if !has_value(of) {
        out[0] is Null
    } else if dtype == Dtype::Float64 {
        out[0] is Float && is_float_extreme(out[0]->Float_0, of, least)
    } else {
        out[0] is Int && if least {
            is_least(of, out[0]->Int_0)
        } else {
            is_greatest(of, out[0]->Int_0)
        }
    }
}

/// A series has a value exactly if not all of its cells are null.
pub proof fn lemma_has_value(cells: Seq<Cell>)
    ensures
        null_count(cells) <= cells.len(),
        has_value(cells) <==> null_count(cells) < cells.len(),
    decreases cells.len(),
{
    if cells.len() > 0 {
        let init = cells.drop_last();
        lemma_has_value(init);
        if has_value(init) {
            let i = choose|i: int| 0 <= i < init.len() && !(#[trigger] init[i] is Null);
            assert(!(cells[i] is Null));
        }
        if has_value(cells) && cells.last() is Null {
            let i = choose|i: int| 0 <= i < cells.len() && !(#[trigger] cells[i] is Null);
            assert(!(init[i] is Null));
        }
        if !(cells.last() is Null) {
            assert(!(cells[cells.len() - 1] is Null));
        }
    }
}

/// The sum of the positive integers among the cells.
pub open spec fn positive_sum(cells: Seq<Cell>) -> int
    decreases cells.len(),
{
    if cells.len() == 0 {
        0
    } else {
        positive_sum(cells.drop_last()) + match cells.last() {
            Cell::Int(i) if i > 0 => i,
            _ => 0,
        }
    }
}

/// The sum of the negative integers among the cells.
pub open spec fn negative_sum(cells: Seq<Cell>) -> int
    decreases cells.len(),
{
    if cells.len() == 0 {
        0
    } else {
        negative_sum(cells.drop_last()) + match cells.last() {
            Cell::Int(i) if i < 0 => i,
            _ => 0,
        }
    }
}

/// Whether every sum of some of the integers fits in 64 bits.
pub open spec fn sums_fit(cells: Seq<Cell>) -> bool {
    positive_sum(cells) <= i64::MAX && negative_sum(cells) >= i64::MIN
}

/// The least of `start` and the integers among the cells.
pub open spec fn least_of(cells: Seq<Cell>, start: int) -> int
    decreases cells.len(),
{
    if cells.len() == 0 {
        start
    } else {
        let rest = least_of(cells.drop_last(), start);
        match cells.last() {
            Cell::Int(i) if i < rest => i,
            _ => rest,
        }
    }
}

/// The greatest of `start` and the integers among the cells.
pub open spec fn greatest_of(cells: Seq<Cell>, start: int) -> int
    decreases cells.len(),
{
    if cells.len() == 0 {
        start
    } else {
        let rest = greatest_of(cells.drop_last(), start);
        match cells.last() {
            Cell::Int(i) if i > rest => i,
            _ => rest,
        }
    }
}

/// What a rolling window computes.
pub enum Rolling {
    /// The sum of the values in the window.
    Sum,
    /// The least value in the window.
    Min,
    /// The greatest value in the window.
    Max,
}

/// The window that ends at position `i`: the `size` cells up to and with
/// `i`, or as many as the series has there.
pub open spec fn window_at(cells: Seq<Cell>, i: int, size: nat) -> Seq<Cell> {
    cells.subrange(
        if i + 1 >= size {
            i + 1 - size
        } else {
            0
        },
        i + 1,
    )
}

/// Whether the window at `i` yields a value: it holds at least `min_periods`
/// values, and, unless nulls are ignored, it is full and holds no null.
pub open spec fn window_defined(
    cells: Seq<Cell>,
    i: int,
    size: nat,
    ignore_null: bool,
    min_periods: nat,
) -> bool {
    let window = window_at(cells, i, size);
    window.len() - null_count(window) >= min_periods && (ignore_null || (window.len() == size
        && null_count(window) == 0))
}

/// What a window of integers yields. A window without a value, which yields
/// anything only where `min_periods` is 0, gives 0 as its sum, the greatest
/// 64-bit integer as its least and the least as its greatest value.
pub open spec fn window_value(kind: Rolling, window: Seq<Cell>) -> int {
    match kind {
        Rolling::Sum => sum_cells(window),
        Rolling::Min => least_of(window, i64::MAX as int),
        Rolling::Max => greatest_of(window, i64::MIN as int),
    }
}

/// The cell at position `i` of a rolling aggregation over integers.
pub open spec fn rolling_cell(
    kind: Rolling,
    cells: Seq<Cell>,
    i: int,
    size: nat,
    ignore_null: bool,
    min_periods: nat,
) -> Cell {
    if window_defined(cells, i, size, ignore_null, min_periods) {
        Cell::Int(window_value(kind, window_at(cells, i, size)))
    } else {
        Cell::Null
    }
}

/// The cells of a rolling aggregation over integers.
pub open spec fn rolling_cells(
    kind: Rolling,
    cells: Seq<Cell>,
    size: nat,
    ignore_null: bool,
    min_periods: nat,
) -> Seq<Cell> {
    Seq::new(cells.len(), |i: int| rolling_cell(kind, cells, i, size, ignore_null, min_periods))
}

/// Whether `out` is a rolling aggregation over floats: as long as the series,
/// null where the window yields nothing and a float elsewhere.
pub open spec fn is_float_rolling(
    out: Seq<Cell>,
    cells: Seq<Cell>,
    size: nat,
    ignore_null: bool,
    min_periods: nat,
) -> bool {
    out.len() == cells.len() && forall|i: int|
        0 <= i < cells.len() ==> if window_defined(cells, i, size, ignore_null, min_periods) {
            #[trigger] out[i] is Float
        } else {
            out[i] is Null
        }
}

/// The cells of a rolling sum over floats: in each window that yields a
/// value, the floats are added to zero in the order in which the engine
/// keeps them.
pub uninterp spec fn float_rolling_sum(
    cells: Seq<Cell>,
    size: nat,
    ignore_null: bool,
    min_periods: nat,
) -> Seq<Cell>;

/// The cells of a rolling least value over floats: in each window that
/// yields a value, the greatest finite float gives way to each float that
/// is less than what came before, in the order in which the engine keeps
/// them.
pub uninterp spec fn float_rolling_min(
    cells: Seq<Cell>,
    size: nat,
    ignore_null: bool,
    min_periods: nat,
) -> Seq<Cell>;

/// The cells of a rolling greatest value over floats: in each window that
/// yields a value, the least finite float gives way to each float that is
/// greater than what came before, in the order in which the engine keeps
/// them.
pub uninterp spec fn float_rolling_max(
    cells: Seq<Cell>,
    size: nat,
    ignore_null: bool,
    min_periods: nat,
) -> Seq<Cell>;

/// The cells of a rolling mean over floats: in each window that yields a
/// value, the rolling sum divided by the number of values.
pub uninterp spec fn float_rolling_mean(
    cells: Seq<Cell>,
    size: nat,
    ignore_null: bool,
    min_periods: nat,
) -> Seq<Cell>;

/// The cells of a rolling aggregation over floats.
pub open spec fn float_rolling_cells(
    kind: Rolling,
    cells: Seq<Cell>,
    size: nat,
    ignore_null: bool,
    min_periods: nat,
) -> Seq<Cell> {
    match kind {
        Rolling::Sum => float_rolling_sum(cells, size, ignore_null, min_periods),
        Rolling::Min => float_rolling_min(cells, size, ignore_null, min_periods),
        Rolling::Max => float_rolling_max(cells, size, ignore_null, min_periods),
    }
}

/// With a window of one cell that needs one value, a rolling sum, least or
/// greatest value of integers is the series itself.
pub proof fn lemma_rolling_window_of_one(kind: Rolling, cells: Seq<Cell>, ignore_null: bool)
    requires
        cells_fit(Dtype::Int64, cells),
    ensures
        rolling_cells(kind, cells, 1, ignore_null, 1) == cells,
{
    assert forall|i: int| 0 <= i < cells.len() implies rolling_cell(
        kind,
        cells,
        i,
        1,
        ignore_null,
        1,
    ) == cells[i] by {
        let window = window_at(cells, i, 1);
        assert(window =~= seq![cells[i]]);
        assert(window.drop_last() =~= Seq::<Cell>::empty());
        assert(window.last() == cells[i]);
        assert(null_count(window.drop_last()) == 0);
        assert(sum_cells(window.drop_last()) == 0);
        assert(least_of(window.drop_last(), i64::MAX as int) == i64::MAX);
        assert(greatest_of(window.drop_last(), i64::MIN as int) == i64::MIN);
        assert(cell_fits(Dtype::Int64, cells[i]));
    }
    assert(rolling_cells(kind, cells, 1, ignore_null, 1) =~= cells);
}

/// Whether string `a` comes before string `b`, character by character; a
/// string comes after each of its proper prefixes.
pub open spec fn str_less(a: Seq<char>, b: Seq<char>) -> bool
    decreases a.len(),
{
    if b.len() == 0 {
        false
    } else if a.len() == 0 {
        true
    } else if a[0] != b[0] {
        a[0] < b[0]
    } else {
        str_less(a.skip(1), b.skip(1))
    }
}

/// The place of a float that is a number among the floats, told from its
/// bits: the bits below the sign give its size, and the sign turns it
/// round. The two zeros have one place.
pub open spec fn float_rank(bits: u64) -> int {
    if bits >= 0x8000_0000_0000_0000 {
        -((bits & 0x7FFF_FFFF_FFFF_FFFF) as int)
    } else {
        (bits & 0x7FFF_FFFF_FFFF_FFFF) as int
    }
}

/// Whether the float of the first bits is less than the float of the
/// second, as IEEE 754 compares them: nothing is less than a NaN, and a NaN
/// is less than nothing.
pub open spec fn float_less(a: u64, b: u64) -> bool {
    !is_nan_bits(a) && !is_nan_bits(b) && float_rank(a) < float_rank(b)
}

/// Whether the floats of two bit patterns are equal, as IEEE 754 compares
/// them: the two zeros are equal, and a NaN equals nothing.
pub open spec fn float_equal(a: u64, b: u64) -> bool {
    !is_nan_bits(a) && !is_nan_bits(b) && float_rank(a) == float_rank(b)
}

/// The bits of the sum of two floats, rounded as IEEE 754 says.
pub uninterp spec fn float_add(a: u64, b: u64) -> u64;

/// The bits of the difference of two floats, rounded as IEEE 754 says.
pub uninterp spec fn float_sub(a: u64, b: u64) -> u64;

/// The bits of the product of two floats, rounded as IEEE 754 says.
pub uninterp spec fn float_mul(a: u64, b: u64) -> u64;

/// The bits of the quotient of two floats, rounded as IEEE 754 says.
pub uninterp spec fn float_div(a: u64, b: u64) -> u64;

/// Whether value `a` comes before value `b`: by size for integers, dates
/// and floats, `false` before `true`, strings character by character.
pub open spec fn cell_less(a: Cell, b: Cell) -> bool {
    match (a, b) {
        (Cell::Int(x), Cell::Int(y)) => x < y,
        (Cell::Bool(x), Cell::Bool(y)) => !x && y,
        (Cell::Str(x), Cell::Str(y)) => str_less(x, y),
        (Cell::Float(x), Cell::Float(y)) => float_less(x, y),
        _ => false,
    }
}

/// Whether two values are equal: floats as numbers, all others if they are
/// the same.
pub open spec fn cell_equal(a: Cell, b: Cell) -> bool {
    match (a, b) {
        (Cell::Float(x), Cell::Float(y)) => float_equal(x, y),
        _ => a == b,
    }
}

/// The six comparisons.
pub enum Comparison {
    Eq,
    Neq,
    Gt,
    GtEq,
    Lt,
    LtEq,
}

/// What a comparison says of two values of one dtype.
pub open spec fn compare_values(op: Comparison, a: Cell, b: Cell) -> bool {
    match op {
        Comparison::Eq => cell_equal(a, b),
        Comparison::Neq => !cell_equal(a, b),
        Comparison::Gt => cell_less(b, a),
        Comparison::GtEq => cell_less(b, a) || cell_equal(a, b),
        Comparison::Lt => cell_less(a, b),
        Comparison::LtEq => cell_less(a, b) || cell_equal(a, b),
    }
}

/// One cell of a comparison: null if either side is null.
pub open spec fn compare_cell(op: Comparison, a: Cell, b: Cell) -> Cell {
    if a is Null || b is Null {
        Cell::Null
    } else {
        Cell::Bool(compare_values(op, a, b))
    }
}

/// The cells of a comparison of two series of equal length.
pub open spec fn compare_cells(op: Comparison, a: Seq<Cell>, b: Seq<Cell>) -> Seq<Cell> {
    Seq::new(a.len(), |i: int| compare_cell(op, a[i], b[i]))
}

/// Addition, subtraction and multiplication.
pub enum Arith {
    Add,
    Sub,
    Mul,
}

/// The exact result of an operation on two integers.
pub open spec fn arith_value(op: Arith, a: int, b: int) -> int {
    match op {
        Arith::Add => a + b,
        Arith::Sub => a - b,
        Arith::Mul => a * b,
    }
}

/// One cell of an operation on integers: null if either side is null.
pub open spec fn arith_cell(op: Arith, a: Cell, b: Cell) -> Cell {
    match (a, b) {
        (Cell::Int(x), Cell::Int(y)) => Cell::Int(arith_value(op, x, y)),
        _ => Cell::Null,
    }
}

/// The cells of an operation on two series of integers of equal length.
pub open spec fn arith_cells(op: Arith, a: Seq<Cell>, b: Seq<Cell>) -> Seq<Cell> {
    Seq::new(a.len(), |i: int| arith_cell(op, a[i], b[i]))
}

/// Whether every result of an operation on two series of integers fits in 64
/// bits.
pub open spec fn arith_fits(op: Arith, a: Seq<Cell>, b: Seq<Cell>) -> bool {
    forall|i: int|
        0 <= i < a.len() ==> cell_fits(Dtype::Int64, #[trigger] arith_cell(op, a[i], b[i]))
}

/// The four operations on floats.
pub enum FloatOp {
    Add,
    Sub,
    Mul,
    Div,
}

/// The bits of the result of an operation on two floats.
pub open spec fn float_value(op: FloatOp, a: u64, b: u64) -> u64 {
    match op {
        FloatOp::Add => float_add(a, b),
        FloatOp::Sub => float_sub(a, b),
        FloatOp::Mul => float_mul(a, b),
        FloatOp::Div => float_div(a, b),
    }
}

/// One cell of an operation on floats: null if either side is null.
pub open spec fn float_cell(op: FloatOp, a: Cell, b: Cell) -> Cell {
    match (a, b) {
        (Cell::Float(x), Cell::Float(y)) => Cell::Float(float_value(op, x, y)),
        _ => Cell::Null,
    }
}

/// The cells of an operation on two series of floats of equal length.
pub open spec fn float_cells(op: FloatOp, a: Seq<Cell>, b: Seq<Cell>) -> Seq<Cell> {
    Seq::new(a.len(), |i: int| float_cell(op, a[i], b[i]))
}

/// Whether the bits are those of a float zero, positive or negative.
pub open spec fn is_float_zero(bits: u64) -> bool {
    bits == 0 || bits == 0x8000_0000_0000_0000
}

/// Whether a division of `a` by `b` would divide a value by zero.
pub open spec fn divides_by_zero(a: Seq<Cell>, b: Seq<Cell>) -> bool {
    exists|i: int|
        0 <= i < a.len() && !(a[i] is Null) && (#[trigger] b[i] matches Cell::Float(bits)
            && is_float_zero(bits))
}

/// The last value at or before position `i`; null if there is none.
pub open spec fn last_value(cells: Seq<Cell>, i: int) -> Cell
    decreases i + 1,
{
    if i < 0 || i >= cells.len() {
        Cell::Null
    } else if !(cells[i] is Null) {
        cells[i]
    } else {
        last_value(cells, i - 1)
    }
}

/// The next value at or after position `i`; null if there is none.
pub open spec fn next_value(cells: Seq<Cell>, i: int) -> Cell
    decreases cells.len() - i,
{
    if i < 0 || i >= cells.len() {
        Cell::Null
    } else if !(cells[i] is Null) {
        cells[i]
    } else {
        next_value(cells, i + 1)
    }
}

/// Each null replaced by the last value before it, where there is one.
pub open spec fn fill_forward_cells(cells: Seq<Cell>) -> Seq<Cell> {
    Seq::new(cells.len(), |i: int| last_value(cells, i))
}

/// Each null replaced by the next value after it, where there is one.
pub open spec fn fill_backward_cells(cells: Seq<Cell>) -> Seq<Cell> {
    Seq::new(cells.len(), |i: int| next_value(cells, i))
}

/// Each null replaced by the given cell.
pub open spec fn fill_with(cells: Seq<Cell>, value: Cell) -> Seq<Cell> {
    Seq::new(
        cells.len(),
        |i: int|
            if cells[i] is Null {
                value
            } else {
                cells[i]
            },
    )
}

/// Whether `out` is a series of floats with a least, or a greatest, float
/// of the series in place of each null.
pub open spec fn is_float_extreme_fill(out: Seq<Cell>, cells: Seq<Cell>, least: bool) -> bool {
    exists|m: u64| #[trigger]
        is_float_extreme(m, cells, least) && out == fill_with(cells, Cell::Float(m))
}

/// The cell that holds the number `m` in a series of booleans or of
/// integers.
pub open spec fn number_cell(dtype: Dtype, m: int) -> Cell {
    if dtype == Dtype::Boolean {
        Cell::Bool(m != 0)
    } else {
        Cell::Int(m)
    }
}

/// Whether `out` is `cells` with the least, or the greatest, of its values in
/// place of each null.
pub open spec fn is_extreme_fill(out: Seq<Cell>, cells: Seq<Cell>, dtype: Dtype, least: bool) -> bool {
    exists|m: int|
        (if least {
            #[trigger] is_least(cells, m)
        } else {
            is_greatest(cells, m)
        }) && out == fill_with(cells, number_cell(dtype, m))
}

/// The ways to replace nulls.
#[derive(Clone, Copy, Debug, PartialEq, Eq, Structural)]
pub enum FillStrategy {
    /// By the next value.
    Backward,
    /// By the last value.
    Forward,
    /// By the least value of the series.
    Min,
    /// By the greatest value of the series.
    Max,
    /// By the mean of the values of the series.
    Mean,
}

/// The limit on the sum of the positive and on that of the negative integers
/// of a series up to which the engine computes their mean: 2^62.
pub open spec fn mean_limit() -> int {
    0x4000_0000_0000_0000
}

impl FillStrategy {
    /// Whether the strategy replaces nulls by a value computed from all the
    /// values of the series.
    pub open spec fn uses_values(self) -> bool {
        self == FillStrategy::Min || self == FillStrategy::Max || self == FillStrategy::Mean
    }
}

/// Whether a strategy applies to a dtype: the last and the next value to
/// all, the least and the greatest value to all but strings, the mean to
/// integers and floats.
pub open spec fn strategy_applies(strategy: FillStrategy, dtype: Dtype) -> bool {
    match strategy {
        FillStrategy::Forward | FillStrategy::Backward => true,
        FillStrategy::Min | FillStrategy::Max => dtype != Dtype::Utf8,
        FillStrategy::Mean => dtype == Dtype::Float64 || dtype == Dtype::Int64,
    }
}

/// Whether the integers stay within the limit up to which the engine
/// computes their mean as an integer.
pub open spec fn mean_in_reach(cells: Seq<Cell>) -> bool {
    positive_sum(cells) <= mean_limit() && negative_sum(cells) >= -mean_limit()
}

/// Whether the engine fills the nulls of a series of this dtype and these
/// cells by this strategy, and gives what the strategy says.
pub open spec fn fillable(strategy: FillStrategy, dtype: Dtype, cells: Seq<Cell>) -> bool {
    &&& strategy_applies(strategy, dtype)
    &&& strategy.uses_values() ==> has_value(cells)
    &&& strategy == FillStrategy::Min && dtype == Dtype::Boolean ==> !is_least(cells, 1)
    &&& strategy == FillStrategy::Mean && dtype == Dtype::Int64 ==> mean_in_reach(cells)
}

/// The mean of integers as the engine computes it: their sum as a float,
/// divided by their number as a float, cut to an integer.
pub uninterp spec fn int_mean(sum: int, count: int) -> int;

/// Whether the bits are those of a float that is not a number.
pub open spec fn is_nan_bits(bits: u64) -> bool {
    (bits & 0x7FFF_FFFF_FFFF_FFFF) > 0x7FF0_0000_0000_0000
}

/// Whether a series holds a float that is not a number.
pub open spec fn has_nan(cells: Seq<Cell>) -> bool {
    exists|i: int| 0 <= i < cells.len() && (#[trigger] cells[i] matches Cell::Float(bits)
        && is_nan_bits(bits))
}

/// How often a cell occurs in a series; null counts as a cell like any
/// other.
pub open spec fn occurrences(cells: Seq<Cell>, cell: Cell) -> nat {
    cells.to_multiset().count(cell)
}

/// Whether `out` holds each distinct cell of `cells` once, in any order.
pub open spec fn is_distinct_copy(out: Seq<Cell>, cells: Seq<Cell>) -> bool {
    out.no_duplicates() && out.to_set() == cells.to_set()
}

/// The number of distinct values of a series; null is no value.
pub open spec fn distinct_values(cells: Seq<Cell>) -> nat {
    cells.to_set().remove(Cell::Null).len()
}

/// One boolean cell per position: whether the cell there occurs only once
/// in the series.
pub open spec fn is_unique_cells(cells: Seq<Cell>) -> Seq<Cell> {
    Seq::new(cells.len(), |i: int| Cell::Bool(occurrences(cells, cells[i]) == 1))
}

/// One boolean cell per position: whether the cell there occurs more than
/// once in the series.
pub open spec fn is_duplicated_cells(cells: Seq<Cell>) -> Seq<Cell> {
    Seq::new(cells.len(), |i: int| Cell::Bool(occurrences(cells, cells[i]) > 1))
}

/// Whether `values` and `counts` count the cells of a series: each distinct
/// cell once, beside it the number of its occurrences, the greater numbers
/// first.
pub open spec fn is_value_counts(values: Seq<Cell>, counts: Seq<u32>, cells: Seq<Cell>) -> bool {
    &&& is_distinct_copy(values, cells)
    &&& counts.len() == values.len()
    &&& forall|i: int| 0 <= i < values.len() ==> #[trigger] counts[i] == occurrences(cells, values[i])
    &&& forall|i: int, j: int| 0 <= i < j < counts.len() ==> #[trigger] counts[i] >= #[trigger] counts[j]
}

/// Two series with nulls at the same positions have the same number of
/// nulls.
pub proof fn lemma_same_nulls(a: Seq<Cell>, b: Seq<Cell>)
    requires
        a.len() == b.len(),
        forall|i: int| 0 <= i < a.len() ==> (#[trigger] b[i] is Null <==> a[i] is Null),
    ensures
        null_count(a) == null_count(b),
    decreases a.len(),
{
    if a.len() > 0 {
        assert(b[a.len() - 1] is Null <==> a[a.len() - 1] is Null);
        assert forall|i: int| 0 <= i < a.len() - 1 implies (#[trigger] b.drop_last()[i] is Null
            <==> a.drop_last()[i] is Null) by {
            assert(b[i] is Null <==> a[i] is Null);
        }
        lemma_same_nulls(a.drop_last(), b.drop_last());
    }
}

/// A series has a null exactly if null is among its cells.
pub proof fn lemma_null_count_contains(cells: Seq<Cell>)
    ensures
        null_count(cells) > 0 <==> cells.contains(Cell::Null),
    decreases cells.len(),
{
    if cells.len() > 0 {
        let init = cells.drop_last();
        lemma_null_count_contains(init);
        if init.contains(Cell::Null) {
            let i = choose|i: int| 0 <= i < init.len() && init[i] == Cell::Null;
            assert(cells[i] == Cell::Null);
        }
        if cells.last() is Null {
            assert(cells[cells.len() - 1] == Cell::Null);
        }
        if cells.contains(Cell::Null) && !(cells.last() is Null) {
            let i = choose|i: int| 0 <= i < cells.len() && cells[i] == Cell::Null;
            assert(init[i] == Cell::Null);
        }
    }
}

/// The cells of `a` where the mask holds `true`, and those of `b` elsewhere.
pub open spec fn zip_cells(a: Seq<Cell>, mask: Seq<Cell>, b: Seq<Cell>) -> Seq<Cell> {
    Seq::new(
        a.len(),
        |i: int|
            if mask[i] == Cell::Bool(true) {
                a[i]
            } else {
                b[i]
            },
    )
}

/// The mask with `false` in place of each null.
pub open spec fn settled_mask(mask: Seq<Cell>) -> Seq<Cell> {
    Seq::new(mask.len(), |i: int| Cell::Bool(mask[i] == Cell::Bool(true)))
}

/// The cell at position `i` of a running sum, least or greatest value of
/// integers: null where the series has a null, else the value over the cells
/// up to and with `i`, or from `i` on if the series is run through from its
/// end.
pub open spec fn running_cell(kind: Rolling, cells: Seq<Cell>, i: int, reverse: bool) -> Cell {
    if cells[i] is Null {
        Cell::Null
    } else {
        Cell::Int(
            window_value(
                kind,
                if reverse {
                    cells.skip(i)
                } else {
                    cells.take(i + 1)
                },
            ),
        )
    }
}

/// The cells of a running sum, least or greatest value of integers.
pub open spec fn running_cells(kind: Rolling, cells: Seq<Cell>, reverse: bool) -> Seq<Cell> {
    Seq::new(cells.len(), |i: int| running_cell(kind, cells, i, reverse))
}

/// Whether two series hold the same values at the same positions: floats
/// equal as numbers, all others the same. A null goes with a null only, and
/// then only if `null_equal` is set.
pub open spec fn same_values(a: Seq<Cell>, b: Seq<Cell>, null_equal: bool) -> bool {
    a.len() == b.len() && forall|i: int|
        0 <= i < a.len() ==> if a[i] is Null || b[i] is Null {
            null_equal && #[trigger] a[i] is Null && b[i] is Null
        } else {
            cell_equal(a[i], b[i])
        }
}

/// Two series without floats hold the same values exactly if they hold the
/// same cells and, where a null is to equal nothing, no null.
pub proof fn lemma_same_values(a: Seq<Cell>, b: Seq<Cell>, null_equal: bool)
    requires
        forall|i: int| 0 <= i < a.len() ==> !(#[trigger] a[i] is Float),
    ensures
        same_values(a, b, null_equal) <==> (a == b && (null_equal || null_count(a) == 0)),
{
    lemma_null_count_contains(a);
    if same_values(a, b, null_equal) {
        assert forall|i: int| 0 <= i < a.len() implies a[i] == b[i] by {
            let _ = a[i] is Null;
        }
        assert(a =~= b);
        if !null_equal && a.contains(Cell::Null) {
            let i = choose|i: int| 0 <= i < a.len() && a[i] == Cell::Null;
            assert(a[i] is Null);
        }
    }
    if a == b && (null_equal || null_count(a) == 0) {
        assert forall|i: int| 0 <= i < a.len() implies if a[i] is Null || b[i] is Null {
            null_equal && #[trigger] a[i] is Null && b[i] is Null
        } else {
            cell_equal(a[i], b[i])
        } by {
            if a[i] is Null && !null_equal {
                assert(a.contains(Cell::Null));
            }
        }
    }
}

/// The bits of the least finite float.
pub open spec fn float_lowest() -> u64 {
    0xFFEF_FFFF_FFFF_FFFF
}

/// The bits of the greatest finite float.
pub open spec fn float_highest() -> u64 {
    0x7FEF_FFFF_FFFF_FFFF
}

/// The bits of the float that a run through the floats of a series ends
/// with. A sum starts with the first float and adds each further one. A
/// greatest value starts with the least finite float and gives way to each
/// float that it is less than; a least value starts with the greatest
/// finite float and gives way to each float that is less than it.
pub open spec fn float_run(kind: Rolling, cells: Seq<Cell>) -> Option<u64>
    decreases cells.len(),
{
    if cells.len() == 0 {
        match kind {
            Rolling::Sum => None,
            Rolling::Max => Some(float_lowest()),
            Rolling::Min => Some(float_highest()),
        }
    } else {
        let rest = float_run(kind, cells.drop_last());
        match (cells.last(), rest) {
            (Cell::Float(x), Some(a)) => Some(
                match kind {
                    Rolling::Sum => float_add(a, x),
                    Rolling::Max => if float_less(a, x) {
                        x
                    } else {
                        a
                    },
                    Rolling::Min => if float_less(x, a) {
                        x
                    } else {
                        a
                    },
                },
            ),
            (Cell::Float(x), None) => Some(x),
            _ => rest,
        }
    }
}

/// The cell at position `i` of a running sum, least or greatest value of
/// floats: null where the series has a null, else what the run through the
/// cells up to and with `i` ends with, or the run from the last cell back
/// to `i` if the series is run through from its end.
pub open spec fn float_running_cell(kind: Rolling, cells: Seq<Cell>, i: int, reverse: bool) -> Cell {
    if cells[i] is Null {
        Cell::Null
    } else {
        match float_run(
            kind,
            if reverse {
                reverse_cells(cells.skip(i))
            } else {
                cells.take(i + 1)
            },
        ) {
            Some(bits) => Cell::Float(bits),
            None => Cell::Null,
        }
    }
}

/// The cells of a running sum, least or greatest value of floats.
pub open spec fn float_running_cells(kind: Rolling, cells: Seq<Cell>, reverse: bool) -> Seq<Cell> {
    Seq::new(cells.len(), |i: int| float_running_cell(kind, cells, i, reverse))
}

/// The zero of a dtype of numbers: of floats the float, else the integer.
pub open spec fn zero_of(dtype: Dtype) -> Cell {
    if dtype == Dtype::Float64 {
        Cell::Float(0)
    } else {
        Cell::Int(0)
    }
}

/// The neighbour of position `i` on one side, as the engine sees it: the
/// cell there, or zero past either end of the series.
pub open spec fn neighbour(cells: Seq<Cell>, i: int, zero: Cell) -> Cell {
    if 0 <= i < cells.len() {
        cells[i]
    } else {
        zero
    }
}

/// Whether a neighbour lies on the far side of a cell: below it for a peak,
/// above it for a trough; unknown if either is null.
pub open spec fn beyond(side: Cell, cell: Cell, peak: bool) -> Option<bool> {
    if side is Null || cell is Null {
        None
    } else if peak {
        Some(cell_less(side, cell))
    } else {
        Some(cell_less(cell, side))
    }
}

/// The conjunction of two truth values of which either may be unknown:
/// `false` if one is `false`, `true` if both are `true`, else unknown.
pub open spec fn both(a: Option<bool>, b: Option<bool>) -> Cell {
    if a == Some(false) || b == Some(false) {
        Cell::Bool(false)
    } else if a == Some(true) && b == Some(true) {
        Cell::Bool(true)
    } else {
        Cell::Null
    }
}

/// The cell at position `i` of the mask of peaks, or of troughs, of a
/// series of numbers. A series of one null cell has no peak.
pub open spec fn peak_cell(cells: Seq<Cell>, i: int, peak: bool, zero: Cell) -> Cell {
    if cells.len() == 1 && cells[0] is Null {
        Cell::Bool(false)
    } else {
        both(
            beyond(neighbour(cells, i - 1, zero), cells[i], peak),
            beyond(neighbour(cells, i + 1, zero), cells[i], peak),
        )
    }
}

/// The mask of peaks, or of troughs, of a series of numbers.
pub open spec fn peak_cells(cells: Seq<Cell>, peak: bool, zero: Cell) -> Seq<Cell> {
    Seq::new(cells.len(), |i: int| peak_cell(cells, i, peak, zero))
}

/// A series without a null cell has no nulls to count.
pub proof fn lemma_no_nulls(cells: Seq<Cell>)
    requires
        forall|i: int| 0 <= i < cells.len() ==> !(#[trigger] cells[i] is Null),
    ensures
        null_count(cells) == 0,
    decreases cells.len(),
{
    if cells.len() > 0 {
        assert(!(cells[cells.len() - 1] is Null));
        assert forall|i: int| 0 <= i < cells.drop_last().len() implies !(
        #[trigger] cells.drop_last()[i] is Null) by {
            assert(!(cells[i] is Null));
        }
        lemma_no_nulls(cells.drop_last());
    }
}

/// Null occurs in a series as often as the series has nulls.
pub proof fn lemma_null_occurrences(cells: Seq<Cell>)
    ensures
        occurrences(cells, Cell::Null) == null_count(cells),
    decreases cells.len(),
{
    broadcast use vstd::seq_lib::group_to_multiset_ensures;

    if cells.len() > 0 {
        lemma_null_occurrences(cells.drop_last());
        assert(cells.drop_last().push(cells.last()) =~= cells);
    }
}

} // verus!
