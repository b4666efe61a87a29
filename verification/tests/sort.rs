use explorer::{
    s_append, s_argsort, s_name, s_new_bool, s_new_i64, s_new_str, s_sort, s_take, s_to_list, ExSeries,
    ExplorerError, Scalar,
};
use polars::prelude::{NamedFrom, Series};

fn ints(values: &[Option<i64>]) -> Vec<Scalar> {
    values
        .iter()
        .map(|v| match v {
            Some(i) => Scalar::Integer(*i),
            None => Scalar::Null,
        })
        .collect()
}

fn list(s: &ExSeries) -> Vec<Scalar> {
    s_to_list(s).unwrap()
}

fn floats(values: &[Option<f64>]) -> ExSeries {
    ExSeries::new(Series::new("f", values))
}

fn float_list(s: &ExSeries) -> Vec<Option<f64>> {
    list(s)
        .into_iter()
        .map(|v| match v {
            Scalar::Float(bits) => Some(f64::from_bits(bits)),
            Scalar::Null => None,
            other => panic!("not a float: {:?}", other),
        })
        .collect()
}

fn strs(values: &[Option<&str>]) -> ExSeries {
    s_new_str("w", values.iter().map(|v| v.map(|s| s.to_string())).collect())
}

fn positions(order: Vec<Option<u32>>) -> Vec<u32> {
    order.into_iter().map(|p| p.unwrap()).collect()
}

#[test]
fn sort_puts_nulls_first_ascending_and_last_descending() {
    let s = s_new_i64("a", vec![Some(3), None, Some(-1), Some(3), None, Some(0)]);
    assert_eq!(
        list(&s_sort(&s, false).unwrap()),
        ints(&[None, None, Some(-1), Some(0), Some(3), Some(3)])
    );
    assert_eq!(
        list(&s_sort(&s, true).unwrap()),
        ints(&[Some(3), Some(3), Some(0), Some(-1), None, None])
    );
}

#[test]
fn sort_of_booleans_and_strings() {
    let b = s_new_bool("b", vec![Some(true), None, Some(false)]);
    assert_eq!(
        list(&s_sort(&b, false).unwrap()),
        vec![Scalar::Null, Scalar::Boolean(false), Scalar::Boolean(true)]
    );
    assert_eq!(
        list(&s_sort(&b, true).unwrap()),
        vec![Scalar::Boolean(true), Scalar::Boolean(false), Scalar::Null]
    );
    let w = strs(&[Some("b"), Some(""), None, Some("ab"), Some("a"), Some("é")]);
    assert_eq!(
        list(&s_sort(&w, false).unwrap()),
        list(&strs(&[None, Some(""), Some("a"), Some("ab"), Some("b"), Some("é")]))
    );
    assert_eq!(
        list(&s_sort(&w, true).unwrap()),
        list(&strs(&[Some("é"), Some("b"), Some("ab"), Some("a"), Some(""), None]))
    );
}

#[test]
fn sort_keeps_the_name() {
    let b = s_new_bool("flags", vec![Some(true), None, Some(false)]);
    assert_eq!(s_name(&s_sort(&b, false).unwrap()), Ok("flags".to_string()));
    let s = s_new_i64("numbers", vec![Some(2), None, Some(1)]);
    assert_eq!(s_name(&s_sort(&s, true).unwrap()), Ok("numbers".to_string()));
}

#[test]
fn argsort_keeps_equal_cells_in_their_order() {
    let s = s_new_i64("a", vec![Some(3), None, Some(-1), Some(3), None, Some(0)]);
    assert_eq!(
        positions(s_argsort(&s, false).unwrap()),
        vec![1, 4, 2, 5, 0, 3]
    );
    assert_eq!(
        positions(s_argsort(&s, true).unwrap()),
        vec![0, 3, 5, 2, 1, 4]
    );
}

#[test]
fn argsort_then_take_is_sort() {
    let all = [
        s_new_i64("a", vec![Some(3), None, Some(-1), Some(3), None, Some(0)]),
        s_new_i64("a", vec![]),
        s_new_i64("a", vec![None]),
        s_new_bool("b", vec![Some(true), None, Some(false), Some(true)]),
        strs(&[Some("b"), Some(""), None, Some("ab"), Some("b")]),
        s_append(
            &s_new_i64("a", vec![Some(2), None]),
            &s_new_i64("a", vec![Some(1), Some(2)]),
        )
        .unwrap(),
    ];
    for s in &all {
        for reverse in [false, true] {
            let order = positions(s_argsort(s, reverse).unwrap());
            let taken = s_take(s, order).unwrap();
            assert_eq!(list(&taken), list(&s_sort(s, reverse).unwrap()));
        }
    }
}

#[test]
fn floats_are_sorted_as_numbers() {
    let s = floats(&[Some(2.5), Some(-1.0), Some(0.0)]);
    assert_eq!(
        float_list(&s_sort(&s, false).unwrap()),
        vec![Some(-1.0), Some(0.0), Some(2.5)]
    );
    assert_eq!(positions(s_argsort(&s, true).unwrap()), vec![0, 2, 1]);
    let with_null = floats(&[Some(2.5), None, Some(-1.0)]);
    assert_eq!(
        float_list(&s_sort(&with_null, false).unwrap()),
        vec![None, Some(-1.0), Some(2.5)]
    );
}

#[test]
fn a_nan_has_no_place_in_the_order() {
    let nan = floats(&[Some(1.0), Some(f64::NAN), Some(0.0)]);
    assert!(matches!(s_sort(&nan, false), Err(ExplorerError::OutOfRange)));
    assert!(matches!(s_argsort(&nan, false), Err(ExplorerError::OutOfRange)));
    let nans = floats(&[Some(f64::NAN), Some(1.0), Some(f64::NAN), Some(f64::NAN)]);
    assert!(matches!(s_sort(&nans, true), Err(ExplorerError::OutOfRange)));
    let nan_and_null = floats(&[Some(1.0), Some(f64::NAN), None]);
    assert!(matches!(s_sort(&nan_and_null, false), Err(ExplorerError::OutOfRange)));
    assert!(matches!(s_argsort(&nan_and_null, true), Err(ExplorerError::OutOfRange)));
    let infinite = floats(&[Some(f64::INFINITY), None, Some(f64::NEG_INFINITY)]);
    assert_eq!(
        float_list(&s_sort(&infinite, false).unwrap()),
        vec![None, Some(f64::NEG_INFINITY), Some(f64::INFINITY)]
    );
    assert_eq!(
        float_list(&s_sort(&infinite, true).unwrap()),
        vec![Some(f64::INFINITY), Some(f64::NEG_INFINITY), None]
    );
}

#[test]
fn a_series_stored_in_no_piece_is_sorted_and_scanned() {
    let s = explorer::s_new_i64("a", vec![Some(2), Some(1)]);
    let past = explorer::s_slice(&s, 2, 1).unwrap();
    assert_eq!(explorer::s_n_chunks(&past), Ok(0));
    let sorted = explorer::s_sort(&past, false).unwrap();
    assert_eq!(explorer::s_to_list(&sorted), Ok(vec![]));
    assert_eq!(explorer::s_name(&sorted), Ok("a".to_string()));
    assert_eq!(explorer::s_argsort(&past, true), Ok(vec![]));
    assert_eq!(
        explorer::s_to_list(&explorer::s_cum_sum(&past, false).unwrap()),
        Ok(vec![])
    );
    assert_eq!(
        explorer::s_to_list(&explorer::s_cum_max(&past, true).unwrap()),
        Ok(vec![])
    );
    assert_eq!(
        explorer::s_to_list(&explorer::s_cum_min(&past, false).unwrap()),
        Ok(vec![])
    );
    assert_eq!(
        explorer::s_to_list(&explorer::s_peak_max(&past).unwrap()),
        Ok(vec![])
    );
    assert_eq!(
        explorer::s_to_list(&explorer::s_peak_min(&past).unwrap()),
        Ok(vec![])
    );
}
