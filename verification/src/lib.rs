//! A single-column, typed, null-aware data container and the vectorised
//! operations on it.
//!
//! A series is kept in the columnar engine `polars`. Every operation of this
//! crate states, over a mathematical model of the series (its name, its
//! dtype and its sequence of cells), what it returns and when it fails.
//! What the engine contributes is declared in `engine`, where nothing is
//! proved; all other modules are verified against those declarations.

pub mod arith;
pub mod cast;
pub mod compare;
pub mod dtype;
pub mod engine;
pub mod error;
pub mod fill;
pub mod label;
pub mod mask;
pub mod model;
pub mod order;
pub mod reduce;
pub mod sample;
pub mod scalar;
pub mod scan;
pub mod series;
pub mod shape;
pub mod sort;
pub mod strings;
pub mod unique;
pub mod window;

pub use crate::arith::{combine, s_add, s_div, s_mul, s_sub};
pub use crate::cast::{cast, cast_target, cast_to, s_cast};
pub use crate::compare::{compare, s_eq, s_gt, s_gt_eq, s_lt, s_lt_eq, s_neq, s_series_equal};
pub use crate::dtype::Dtype;
pub use crate::error::ExplorerError;
pub use crate::fill::{fill, fill_strategy, s_fill_none};
pub use crate::mask::{s_arg_true, s_drop_nulls, s_filter, s_is_not_null, s_is_null, s_not};
pub use crate::mask::{s_take, s_zip_with};
pub use crate::model::{Arith, Comparison, FillStrategy, Rolling};
pub use crate::reduce::{quantile_input, quantile_plan, s_max, s_mean, s_median, s_min, s_std};
pub use crate::reduce::{s_sum, s_var, QuantilePlan};
pub use crate::sample::s_seedable_random_indices;
pub use crate::scalar::Scalar;
pub use crate::scan::{s_cum_max, s_cum_min, s_cum_sum, s_peak_max, s_peak_min};
pub use crate::series::{s_as_str, s_clone, s_dtype, s_get, s_len, s_name, s_new_bool};
pub use crate::series::{s_new_date32, s_new_date64, s_new_i64, s_new_str, s_null_count};
pub use crate::series::{s_rename, s_to_list, ExSeries};
pub use crate::shape::{s_append, s_head, s_limit, s_n_chunks, s_rechunk, s_reverse, s_shift};
pub use crate::shape::{s_slice, s_tail, s_take_every};
pub use crate::sort::{s_argsort, s_sort};
pub use crate::strings::{s_explode, s_str_contains, s_str_lengths, s_str_parse_date32};
pub use crate::strings::{s_str_parse_date64, s_str_replace, s_str_replace_all};
pub use crate::strings::{s_str_to_lowercase, s_str_to_uppercase};
pub use crate::unique::{s_is_duplicated, s_is_unique, s_n_unique, s_to_dummies, s_unique};
pub use crate::unique::{s_value_counts, ValueCounts};
pub use crate::window::{check_weights, effective_min_periods, s_rolling_max, s_rolling_mean};
pub use crate::window::{s_rolling_min, s_rolling_sum};
