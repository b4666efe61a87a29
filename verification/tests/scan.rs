use explorer::{
    s_cum_max, s_cum_min, s_cum_sum, s_name, s_new_bool, s_new_date32, s_new_i64, s_peak_max,
    s_peak_min, s_series_equal, s_to_list, s_zip_with, ExSeries, ExplorerError, Scalar,
};
use polars::prelude::{NamedFrom, Series};

fn list(s: &ExSeries) -> Vec<Scalar> {
    s_to_list(s).unwrap()
}

fn ints(values: &[Option<i64>]) -> Vec<Scalar> {
    values
        .iter()
        .map(|v| match v {
            Some(i) => Scalar::Integer(*i),
            None => Scalar::Null,
        })
        .collect()
}

fn bools(values: &[Option<bool>]) -> Vec<Scalar> {
    values
        .iter()
        .map(|v| match v {
            Some(b) => Scalar::Boolean(*b),
            None => Scalar::Null,
        })
        .collect()
}

fn floats(values: &[Option<f64>]) -> ExSeries {
    ExSeries::new(Series::new("f", values))
}

fn float_list(s: &ExSeries) -> Vec<Option<f64>> {
    list(s)
        .into_iter()
        .map(|v| match v {
            Scalar::Float(bits) => Some(f64::from_bits(bits)),
            Scalar::Null => None,
            other => panic!("not a float: {:?}", other),
        })
        .collect()
}

#[test]
fn running_sums_and_extremes() {
    let s = s_new_i64("a", vec![Some(2), None, Some(-1), Some(5), None, Some(1)]);
    assert_eq!(
        list(&s_cum_sum(&s, false).unwrap()),
        ints(&[Some(2), None, Some(1), Some(6), None, Some(7)])
    );
    assert_eq!(
        list(&s_cum_sum(&s, true).unwrap()),
        ints(&[Some(7), None, Some(5), Some(6), None, Some(1)])
    );
    assert_eq!(
        list(&s_cum_max(&s, false).unwrap()),
        ints(&[Some(2), None, Some(2), Some(5), None, Some(5)])
    );
    assert_eq!(
        list(&s_cum_max(&s, true).unwrap()),
        ints(&[Some(5), None, Some(5), Some(5), None, Some(1)])
    );
    assert_eq!(
        list(&s_cum_min(&s, false).unwrap()),
        ints(&[Some(2), None, Some(-1), Some(-1), None, Some(-1)])
    );
    assert_eq!(
        list(&s_cum_min(&s, true).unwrap()),
        ints(&[Some(-1), None, Some(-1), Some(1), None, Some(1)])
    );
    assert_eq!(s_name(&s_cum_sum(&s, false).unwrap()), Ok("a".to_string()));
    assert_eq!(s_name(&s_cum_sum(&s, true).unwrap()), Ok("a".to_string()));
    assert_eq!(s_name(&s_cum_max(&s, true).unwrap()), Ok("a".to_string()));
}

#[test]
fn running_extremes_at_the_limits() {
    let s = s_new_i64("a", vec![Some(i64::MIN), Some(i64::MAX)]);
    assert_eq!(list(&s_cum_max(&s, false).unwrap()), list(&s));
    assert_eq!(
        list(&s_cum_min(&s, false).unwrap()),
        ints(&[Some(i64::MIN), Some(i64::MIN)])
    );
    assert!(matches!(
        s_cum_sum(&s_new_i64("a", vec![Some(i64::MAX), Some(1)]), false),
        Err(ExplorerError::OutOfRange)
    ));
    let d = s_new_date32("d", vec![Some("1970-01-03"), None, Some("1970-01-02")]);
    assert_eq!(
        list(&s_cum_max(&d, false).unwrap()),
        ints(&[Some(2), None, Some(2)])
    );
    assert!(matches!(s_cum_sum(&d, false), Err(ExplorerError::TypeMismatch)));
}

#[test]
fn running_sums_of_floats() {
    let f = floats(&[Some(1.5), None, Some(2.0)]);
    assert_eq!(
        float_list(&s_cum_sum(&f, false).unwrap()),
        vec![Some(1.5), None, Some(3.5)]
    );
    assert_eq!(
        float_list(&s_cum_max(&f, true).unwrap()),
        vec![Some(2.0), None, Some(2.0)]
    );
}

#[test]
fn running_extremes_of_floats_start_at_the_finite_limits() {
    let low = floats(&[Some(f64::NEG_INFINITY), Some(1.0)]);
    assert_eq!(
        float_list(&s_cum_max(&low, false).unwrap()),
        vec![Some(f64::MIN), Some(1.0)]
    );
    let high = floats(&[Some(f64::INFINITY), Some(1.0)]);
    assert_eq!(
        float_list(&s_cum_min(&high, false).unwrap()),
        vec![Some(f64::MAX), Some(1.0)]
    );
    let zero = floats(&[Some(-0.0), Some(0.0)]);
    assert_eq!(
        list(&s_cum_sum(&zero, false).unwrap()),
        vec![
            Scalar::Float((-0.0f64).to_bits()),
            Scalar::Float(0.0f64.to_bits())
        ]
    );
}

#[test]
fn running_refuses_booleans() {
    let b = s_new_bool("b", vec![Some(true)]);
    assert!(matches!(s_cum_sum(&b, false), Err(ExplorerError::TypeMismatch)));
    assert!(matches!(s_cum_max(&b, false), Err(ExplorerError::TypeMismatch)));
    assert!(matches!(s_cum_min(&b, true), Err(ExplorerError::TypeMismatch)));
    assert!(matches!(s_peak_max(&b), Err(ExplorerError::TypeMismatch)));
    assert!(matches!(s_peak_min(&b), Err(ExplorerError::TypeMismatch)));
}

#[test]
fn peaks_and_troughs() {
    let s = s_new_i64("a", vec![Some(1), Some(3), Some(2), Some(-4), Some(5)]);
    let t = Some(true);
    let f = Some(false);
    assert_eq!(list(&s_peak_max(&s).unwrap()), bools(&[f, t, f, f, t]));
    assert_eq!(list(&s_peak_min(&s).unwrap()), bools(&[f, f, f, t, f]));
    let low = s_new_i64("a", vec![Some(-1), Some(-3)]);
    assert_eq!(list(&s_peak_min(&low).unwrap()), bools(&[f, t]));
    assert_eq!(list(&s_peak_max(&low).unwrap()), bools(&[f, f]));
}

#[test]
fn peaks_beside_nulls() {
    let s = s_new_i64("a", vec![Some(1), None, Some(5), Some(2), None]);
    let t = Some(true);
    let f = Some(false);
    assert_eq!(
        list(&s_peak_max(&s).unwrap()),
        bools(&[None, None, None, f, None])
    );
    assert_eq!(
        list(&s_peak_min(&s).unwrap()),
        bools(&[f, None, f, None, None])
    );
    let one = s_new_i64("a", vec![Some(4)]);
    assert_eq!(list(&s_peak_max(&one).unwrap()), bools(&[t]));
    assert_eq!(list(&s_peak_min(&one).unwrap()), bools(&[f]));
    let null = s_new_i64("a", vec![None]);
    assert_eq!(list(&s_peak_max(&null).unwrap()), bools(&[f]));
    assert_eq!(list(&s_peak_min(&null).unwrap()), bools(&[f]));
    let empty = s_new_i64("a", vec![]);
    assert_eq!(list(&s_peak_max(&empty).unwrap()), vec![]);
}

#[test]
fn zip_with_takes_the_other_side_under_false_and_null() {
    let a = s_new_i64("a", vec![Some(1), None, Some(3), Some(4)]);
    let b = s_new_i64("b", vec![Some(10), Some(20), None, Some(40)]);
    let mask = s_new_bool("m", vec![Some(true), Some(true), Some(false), None]);
    let z = s_zip_with(&a, &mask, &b).unwrap();
    assert_eq!(list(&z), ints(&[Some(1), None, None, Some(40)]));
    assert_eq!(s_name(&z), Ok("a".to_string()));
}

#[test]
fn zip_with_under_a_mask_that_was_negated() {
    let a = s_new_i64("a", vec![Some(1), Some(2), Some(3)]);
    let b = s_new_i64("b", vec![Some(10), Some(20), Some(30)]);
    let mask = s_new_bool("m", vec![Some(false), None, Some(true)]);
    let negated = explorer::s_not(&mask).unwrap();
    assert_eq!(
        list(&s_zip_with(&a, &negated, &b).unwrap()),
        ints(&[Some(1), Some(20), Some(30)])
    );
}

#[test]
fn zip_with_of_dates_and_of_one_cell() {
    let a = s_new_date32("a", vec![Some("1970-01-02"), None]);
    let b = s_new_date32("b", vec![Some("1970-01-05"), Some("1970-01-06")]);
    let mask = s_new_bool("m", vec![Some(false), Some(false)]);
    let z = s_zip_with(&a, &mask, &b).unwrap();
    assert_eq!(z.dtype(), a.dtype());
    assert_eq!(list(&z), ints(&[Some(4), Some(5)]));
    let one = s_new_i64("a", vec![Some(1)]);
    let other = s_new_i64("b", vec![Some(2)]);
    assert_eq!(
        list(&s_zip_with(&one, &s_new_bool("m", vec![None]), &other).unwrap()),
        ints(&[Some(2)])
    );
    assert_eq!(
        list(&s_zip_with(&one, &s_new_bool("m", vec![Some(true)]), &other).unwrap()),
        ints(&[Some(1)])
    );
}

#[test]
fn zip_with_refuses_what_does_not_go_together() {
    let a = s_new_i64("a", vec![Some(1)]);
    let b = s_new_bool("b", vec![Some(true)]);
    assert!(matches!(s_zip_with(&a, &b, &b), Err(ExplorerError::TypeMismatch)));
    assert!(matches!(s_zip_with(&a, &a, &a), Err(ExplorerError::TypeMismatch)));
    let two = s_new_i64("a", vec![Some(1), Some(2)]);
    assert!(matches!(s_zip_with(&two, &b, &two), Err(ExplorerError::ShapeMismatch)));
    assert!(matches!(s_zip_with(&a, &b, &two), Err(ExplorerError::ShapeMismatch)));
}

#[test]
fn series_are_equal_cell_for_cell() {
    let a = s_new_i64("a", vec![Some(1), Some(2)]);
    let b = s_new_i64("b", vec![Some(1), Some(2)]);
    let c = s_new_i64("c", vec![Some(1), Some(3)]);
    let short = s_new_i64("d", vec![Some(1)]);
    for null_equal in [true, false] {
        assert_eq!(s_series_equal(&a, &b, null_equal), Ok(true));
        assert_eq!(s_series_equal(&a, &a, null_equal), Ok(true));
        assert_eq!(s_series_equal(&a, &c, null_equal), Ok(false));
        assert_eq!(s_series_equal(&a, &short, null_equal), Ok(false));
        assert_eq!(s_series_equal(&short, &a, null_equal), Ok(false));
    }
}

#[test]
fn a_null_equals_a_null_only_on_demand() {
    let a = s_new_i64("a", vec![Some(1), None]);
    let b = s_new_i64("b", vec![Some(1), None]);
    let c = s_new_i64("c", vec![None, Some(1)]);
    assert_eq!(s_series_equal(&a, &b, true), Ok(true));
    assert_eq!(s_series_equal(&a, &b, false), Ok(false));
    assert_eq!(s_series_equal(&a, &a, false), Ok(false));
    assert_eq!(s_series_equal(&a, &a, true), Ok(true));
    assert_eq!(s_series_equal(&a, &c, true), Ok(false));
    let nulls = s_new_i64("n", vec![None, None]);
    assert_eq!(s_series_equal(&nulls, &nulls, true), Ok(true));
    assert_eq!(s_series_equal(&nulls, &nulls, false), Ok(false));
}

#[test]
fn empty_series_are_equal() {
    let a = s_new_i64("a", vec![]);
    let b = s_new_i64("b", vec![]);
    assert_eq!(s_series_equal(&a, &b, true), Ok(true));
    assert_eq!(s_series_equal(&a, &b, false), Ok(true));
}

#[test]
fn series_of_two_dtypes_are_not_compared() {
    let a = s_new_i64("a", vec![Some(1)]);
    let b = s_new_bool("b", vec![Some(true)]);
    assert_eq!(s_series_equal(&a, &b, true), Err(ExplorerError::TypeMismatch));
    assert_eq!(s_series_equal(&b, &a, false), Err(ExplorerError::TypeMismatch));
}

#[test]
fn floats_are_equal_as_numbers() {
    let a = floats(&[Some(1.0), Some(0.0)]);
    let b = floats(&[Some(1.0), Some(-0.0)]);
    assert_eq!(s_series_equal(&a, &b, false), Ok(true));
    let nan = floats(&[Some(f64::NAN)]);
    let other_nan = floats(&[Some(f64::NAN)]);
    assert_eq!(s_series_equal(&nan, &other_nan, false), Ok(false));
}
