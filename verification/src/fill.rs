//! Replacement of nulls.

use vstd::prelude::*;
use crate::cast::same_text;
use crate::dtype::Dtype;
use crate::engine::{error_message, series_dtype_of, series_fill, series_null_count};
use crate::engine::series_len;
use crate::error::ExplorerError;
use crate::model::{cell_number, fill_backward_cells, fill_forward_cells, fill_with, has_value};
use crate::model::{float_mean, float_sum_cells, int_mean, is_extreme_fill};
use crate::model::{is_float_extreme_fill, is_greatest, is_least, value_count};
use crate::model::lemma_has_value;
use crate::scan::signed_sums;
use crate::model::{mean_in_reach, null_count};
use crate::model::{strategy_applies, sum_cells, FillStrategy, SeriesView};
use crate::scalar::{Cell, Scalar};
use crate::series::{compact, fails, fails_unknown, read_cells, ExSeries};

verus! {

/// The strategy that a name stands for.
pub open spec fn fill_strategy_of(name: Seq<char>) -> Option<FillStrategy> {
    if name == "backward"@ {
        Some(FillStrategy::Backward)
    } else if name == "forward"@ {
        Some(FillStrategy::Forward)
    } else if name == "min"@ {
        Some(FillStrategy::Min)
    } else if name == "max"@ {
        Some(FillStrategy::Max)
    } else if name == "mean"@ {
        Some(FillStrategy::Mean)
    } else {
        None
    }
}

/// The strategy that a name stands for: `backward`, `forward`, `min`, `max`
/// or `mean`; `None` for any other name.
pub fn fill_strategy(strategy: &str) -> (r: Option<FillStrategy>)
    ensures
        r == fill_strategy_of(strategy@),
{
    if same_text(strategy, "backward") {
        Some(FillStrategy::Backward)
    } else if same_text(strategy, "forward") {
        Some(FillStrategy::Forward)
    } else if same_text(strategy, "min") {
        Some(FillStrategy::Min)
    } else if same_text(strategy, "max") {
        Some(FillStrategy::Max)
    } else if same_text(strategy, "mean") {
        Some(FillStrategy::Mean)
    } else {
        None
    }
}

/// What filling the nulls of a series gives.
///
/// `TypeMismatch` if the strategy does not apply to the dtype. The last and
/// the next value fill what follows or precedes a value; nulls before the
/// first or after the last value stay. The least, the greatest and the mean
/// value fill every null of a series that has a value; a series without a
/// value stays as it is. The mean of integers is the one that the engine
/// computes; where the positive or the negative integers add up to more than
/// 2^62, the result is `OutOfRange`. The mean of floats is their sum, added
/// up one after the other from zero, divided by their number.
pub open spec fn gives_filled(
    r: Result<ExSeries, ExplorerError>,
    strategy: FillStrategy,
    data: SeriesView,
) -> bool {
    match data.dtype {
        None => fails(r, ExplorerError::TypeMismatch),
        Some(dtype) => if !strategy_applies(strategy, dtype) {
            fails(r, ExplorerError::TypeMismatch)
        } else if strategy == FillStrategy::Mean && dtype == Dtype::Int64 && !mean_in_reach(
            data.cells,
        ) {
            fails(r, ExplorerError::OutOfRange)
        } else {
            r is Ok && r.unwrap()@.dtype == data.dtype && filled_cells(
                r.unwrap()@.cells,
                strategy,
                dtype,
                data.cells,
            )
        },
    }
}

/// Whether `out` holds the cells of a series of the given dtype with its
/// nulls filled by the strategy.
pub open spec fn filled_cells(
    out: Seq<Cell>,
    strategy: FillStrategy,
    dtype: Dtype,
    cells: Seq<Cell>,
) -> bool {
    match strategy {
        FillStrategy::Forward => out == fill_forward_cells(cells),
        FillStrategy::Backward => out == fill_backward_cells(cells),
        _ => if !has_value(cells) {
            out == cells
        } else if dtype == Dtype::Float64 {
            match strategy {
                FillStrategy::Min => is_float_extreme_fill(out, cells, true),
                FillStrategy::Max => is_float_extreme_fill(out, cells, false),
                _ => out == fill_with(
                    cells,
                    Cell::Float(float_mean(float_sum_cells(cells), value_count(cells))),
                ),
            }
        } else {
            match strategy {
                FillStrategy::Min => is_extreme_fill(out, cells, dtype, true),
                FillStrategy::Max => is_extreme_fill(out, cells, dtype, false),
                _ => out == fill_with(
                    cells,
                    Cell::Int(int_mean(sum_cells(cells), cells.len() - null_count(cells))),
                ),
            }
        },
    }
}

/// Whether a strategy applies to a dtype.
fn applies(strategy: FillStrategy, dtype: Dtype) -> (r: bool)
    ensures
        r == strategy_applies(strategy, dtype),
{
    match strategy {
        FillStrategy::Forward | FillStrategy::Backward => true,
        FillStrategy::Min | FillStrategy::Max => dtype != Dtype::Utf8,
        FillStrategy::Mean => dtype == Dtype::Float64 || dtype == Dtype::Int64,
    }
}

/// Whether the integers read from a column stay within the limit for a mean.
fn within_mean_limit(values: &Vec<Scalar>, Ghost(cells): Ghost<Seq<Cell>>) -> (r: bool)
    requires
        values@.len() == cells.len(),
        forall|i: int| 0 <= i < cells.len() ==> (#[trigger] values@[i])@ == cells[i],
    ensures
        r == mean_in_reach(cells),
{
    let (above, below) = signed_sums(values, Ghost(cells));
    above <= 0x4000_0000_0000_0000 && below >= -0x4000_0000_0000_0000
}

/// Whether none of the booleans read from a column is `false`, while one is
/// `true`.
fn all_true(values: &Vec<Scalar>, Ghost(cells): Ghost<Seq<Cell>>) -> (r: bool)
    requires
        values@.len() == cells.len(),
        forall|i: int| 0 <= i < cells.len() ==> (#[trigger] values@[i])@ == cells[i],
        forall|i: int| 0 <= i < cells.len() ==> #[trigger] cells[i] is Null || cells[i] is Bool,
    ensures
        r == is_least(cells, 1),
{
    let mut seen_true = false;
    let ghost mut at_true: int = 0;
    let mut i: usize = 0;
    while i < values.len()
        invariant
            i <= values@.len(),
            values@.len() == cells.len(),
            forall|j: int| 0 <= j < cells.len() ==> (#[trigger] values@[j])@ == cells[j],
            forall|j: int| 0 <= j < cells.len() ==> #[trigger] cells[j] is Null || cells[j] is Bool,
            seen_true ==> 0 <= at_true < i && cells[at_true] == Cell::Bool(true),
            !seen_true ==> forall|j: int| 0 <= j < i ==> #[trigger] cells[j] is Null,
            forall|j: int| 0 <= j < i ==> #[trigger] cells[j] != Cell::Bool(false),
        decreases values@.len() - i,
    {
        assert(values@[i as int]@ == cells[i as int]);
        match &values[i] {
            Scalar::Boolean(b) => {
                if *b {
                    seen_true = true;
                    proof {
                        at_true = i as int;
                    }
                } else {
                    proof {
                        assert(!(cells[i as int] is Null));
                        assert(cell_number(cells[i as int]) == 0);
                    }
                    return false;
                }
            },
            _ => {
                assert(cells[i as int] is Null);
            },
        }
        i += 1;
    }
    proof {
        if seen_true {
            assert(!(cells[at_true] is Null) && cell_number(cells[at_true]) == 1);
            assert forall|j: int| 0 <= j < cells.len() && !(#[trigger] cells[j] is Null) implies 1
                <= cell_number(cells[j]) by {
                assert(cells[j] is Bool);
                assert(cells[j] != Cell::Bool(false));
            }
        } else {
            if is_least(cells, 1) {
                let j = choose|j: int|
                    0 <= j < cells.len() && !(#[trigger] cells[j] is Null) && cell_number(cells[j])
                        == 1;
                assert(cells[j] is Null);
            }
        }
    }
    seen_true
}

/// The nulls of a series filled by a strategy; see `gives_filled`.
pub fn fill(data: &ExSeries, strategy: FillStrategy) -> (r: Result<ExSeries, ExplorerError>)
    ensures
        gives_filled(r, strategy, data@),
{
    let dtype = match series_dtype_of(&data.series) {
        Some(d) => d,
        None => {
            return Err(ExplorerError::TypeMismatch);
        },
    };
    if !applies(strategy, dtype) {
        return Err(ExplorerError::TypeMismatch);
    }
    let by_values = match strategy {
        FillStrategy::Forward | FillStrategy::Backward => false,
        _ => true,
    };
    let mut ask = strategy;
    if by_values {
        if strategy == FillStrategy::Mean && dtype == Dtype::Int64 {
            let values = read_cells(&data.series);
            if !within_mean_limit(&values, Ghost(data@.cells)) {
                return Err(ExplorerError::OutOfRange);
            }
        }
        proof {
            lemma_has_value(data@.cells);
        }
        if series_null_count(&data.series) == series_len(&data.series) {
            // Without a value there is nothing to fill with.
            return Ok(ExSeries::new(data.series.clone()));
        }
        if strategy == FillStrategy::Min && dtype == Dtype::Boolean {
            let values = read_cells(&data.series);
            if all_true(&values, Ghost(data@.cells)) {
                // The engine takes `false` for the least boolean whatever the
                // series holds. Where every value is `true`, the least value
                // is the greatest.
                ask = FillStrategy::Max;
                proof {
                    lemma_one_extreme(data@.cells);
                }
            }
        }
    }
    // The engine adds up the floats of a column in pieces piece by piece.
    let column = if strategy == FillStrategy::Mean && dtype == Dtype::Float64 {
        compact(&data.series)
    } else {
        data.series.clone()
    };
    match series_fill(&column, ask) {
        Ok(out) => Ok(ExSeries::new(out)),
        Err(e) => Err(ExplorerError::Polars(error_message(&e))),
    }
}

/// Among booleans of which the least is `true`, `true` is the only greatest,
/// and the only least.
proof fn lemma_one_extreme(cells: Seq<Cell>)
    requires
        is_least(cells, 1),
        forall|i: int| 0 <= i < cells.len() ==> #[trigger] cells[i] is Null || cells[i] is Bool,
    ensures
        forall|m: int| #[trigger] is_greatest(cells, m) ==> m == 1,
        is_least(cells, 1),
{
    assert forall|m: int| #[trigger] is_greatest(cells, m) implies m == 1 by {
        let j = choose|j: int|
            0 <= j < cells.len() && !(#[trigger] cells[j] is Null) && cell_number(cells[j]) == m;
        assert(cells[j] is Bool);
        assert(1 <= cell_number(cells[j]));
    }
}

/// The nulls of a series filled by the strategy that `strategy` names:
/// `backward`, `forward`, `min`, `max` or `mean`.
///
/// `UnknownOption` with the name if it is none of these; else as
/// `gives_filled` says.
pub fn s_fill_none(data: &ExSeries, strategy: &str) -> (r: Result<ExSeries, ExplorerError>)
    ensures
        match fill_strategy_of(strategy@) {
            None => fails_unknown(r, strategy@),
            Some(s) => gives_filled(r, s, data@),
        },
{
    match fill_strategy(strategy) {
        None => Err(ExplorerError::UnknownOption(strategy.to_owned())),
        Some(s) => fill(data, s),
    }
}

} // verus!
