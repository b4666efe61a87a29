use explorer::{
    quantile_input, s_max, s_mean, s_median, s_min, s_new_bool, s_new_i64, s_new_str, s_null_count, s_std, s_sum,
    s_var, ExSeries, ExplorerError, Scalar,
};
use polars::prelude::{NamedFrom, Series};

fn floats(values: &[Option<f64>]) -> ExSeries {
    ExSeries::new(Series::new("f", values))
}

fn float_of(r: Result<Scalar, ExplorerError>) -> f64 {
    match r {
        Ok(Scalar::Float(bits)) => f64::from_bits(bits),
        other => panic!("not a float: {:?}", other),
    }
}

#[test]
fn example_of_one_null_among_integers() {
    let s = s_new_i64("a", vec![Some(1), None, Some(3)]);
    assert_eq!(s_sum(&s), Ok(Scalar::Integer(4)));
    assert_eq!(s_null_count(&s), Ok(1));
    assert_eq!(float_of(s_mean(&s)), 2.0);
}

#[test]
fn sum_counts_true_booleans() {
    let s = s_new_bool("b", vec![Some(true), None, Some(false), Some(true)]);
    assert_eq!(s_sum(&s), Ok(Scalar::Integer(2)));
}

#[test]
fn sum_of_floats() {
    assert_eq!(float_of(s_sum(&floats(&[Some(1.5), None, Some(2.0)]))), 3.5);
}

#[test]
fn reductions_of_no_value_are_null() {
    let empty = s_new_i64("a", vec![]);
    let nulls = s_new_i64("a", vec![None, None]);
    for s in [&empty, &nulls] {
        assert_eq!(s_sum(s), Ok(Scalar::Null));
        assert_eq!(s_min(s), Ok(Scalar::Null));
        assert_eq!(s_max(s), Ok(Scalar::Null));
        assert_eq!(s_mean(s), Ok(Scalar::Null));
        assert_eq!(s_median(s), Ok(Scalar::Null));
        assert_eq!(s_var(s), Ok(Scalar::Null));
        assert_eq!(s_std(s), Ok(Scalar::Null));
    }
    let no_floats = floats(&[None]);
    assert_eq!(s_sum(&no_floats), Ok(Scalar::Null));
    assert_eq!(s_min(&no_floats), Ok(Scalar::Null));
    assert_eq!(s_max(&no_floats), Ok(Scalar::Null));
    assert_eq!(s_mean(&no_floats), Ok(Scalar::Null));
    assert_eq!(s_median(&no_floats), Ok(Scalar::Null));
    assert_eq!(s_var(&no_floats), Ok(Scalar::Null));
    assert_eq!(s_std(&no_floats), Ok(Scalar::Null));
    let no_bools = s_new_bool("b", vec![None]);
    assert_eq!(s_sum(&no_bools), Ok(Scalar::Null));
    assert_eq!(s_min(&no_bools), Ok(Scalar::Null));
    assert_eq!(s_mean(&no_bools), Ok(Scalar::Null));
}

#[test]
fn sum_past_64_bits_is_out_of_range() {
    let s = s_new_i64("a", vec![Some(i64::MAX), Some(1)]);
    assert_eq!(s_sum(&s), Err(ExplorerError::OutOfRange));
    let t = s_new_i64("a", vec![Some(i64::MIN), Some(-1)]);
    assert_eq!(s_sum(&t), Err(ExplorerError::OutOfRange));
}

#[test]
fn sum_that_passes_the_limit_on_its_way_is_exact() {
    let s = s_new_i64("a", vec![Some(i64::MAX), Some(1), Some(-2)]);
    assert_eq!(s_sum(&s), Ok(Scalar::Integer(i64::MAX - 1)));
    let big = s_new_i64("a", vec![Some(9_007_199_254_740_993), Some(0)]);
    assert_eq!(s_sum(&big), Ok(Scalar::Integer(9_007_199_254_740_993)));
}

#[test]
fn min_and_max_of_integers() {
    let s = s_new_i64("a", vec![Some(5), None, Some(-2), Some(9)]);
    assert_eq!(s_min(&s), Ok(Scalar::Integer(-2)));
    assert_eq!(s_max(&s), Ok(Scalar::Integer(9)));
    let wide = s_new_i64("a", vec![Some(i64::MAX), Some(i64::MIN)]);
    assert_eq!(s_min(&wide), Ok(Scalar::Integer(i64::MIN)));
    assert_eq!(s_max(&wide), Ok(Scalar::Integer(i64::MAX)));
}

#[test]
fn min_and_max_of_booleans_count_as_one_and_zero() {
    let all_true = s_new_bool("b", vec![Some(true), None, Some(true)]);
    assert_eq!(s_min(&all_true), Ok(Scalar::Integer(1)));
    assert_eq!(s_max(&all_true), Ok(Scalar::Integer(1)));
    let all_false = s_new_bool("b", vec![Some(false)]);
    assert_eq!(s_min(&all_false), Ok(Scalar::Integer(0)));
    assert_eq!(s_max(&all_false), Ok(Scalar::Integer(0)));
    let mixed = s_new_bool("b", vec![Some(false), Some(true)]);
    assert_eq!(s_min(&mixed), Ok(Scalar::Integer(0)));
    assert_eq!(s_max(&mixed), Ok(Scalar::Integer(1)));
}

#[test]
fn min_and_max_of_floats() {
    let s = floats(&[Some(2.5), None, Some(-1.0)]);
    assert_eq!(float_of(s_min(&s)), -1.0);
    assert_eq!(float_of(s_max(&s)), 2.5);
}

#[test]
fn the_extremes_of_floats_with_zeros_and_a_nan() {
    let zeros = floats(&[Some(0.0), Some(-0.0)]);
    assert_eq!(float_of(s_min(&zeros)), 0.0);
    assert_eq!(float_of(s_max(&zeros)), 0.0);
    let with_nan = floats(&[Some(f64::NAN), Some(2.0), Some(1.0)]);
    assert!(matches!(s_min(&with_nan), Ok(Scalar::Float(_))));
    assert!(matches!(s_max(&with_nan), Ok(Scalar::Float(_))));
    let infinite = floats(&[Some(f64::NEG_INFINITY), Some(5.0), Some(f64::INFINITY)]);
    assert_eq!(float_of(s_min(&infinite)), f64::NEG_INFINITY);
    assert_eq!(float_of(s_max(&infinite)), f64::INFINITY);
}

#[test]
fn the_sum_of_floats_is_added_up_from_zero() {
    assert_eq!(s_sum(&floats(&[Some(-0.0)])), Ok(Scalar::Float(0.0f64.to_bits())));
    let s = floats(&[Some(1e16), Some(1.0), Some(-1e16), None, Some(1.0)]);
    let expected = ((0.0 + 1e16 + 1.0) - 1e16) + 1.0;
    assert_eq!(s_sum(&s), Ok(Scalar::Float(f64::to_bits(expected))));
    let other = floats(&[Some(1.0), Some(1.0), Some(1e16), None, Some(-1e16)]);
    let other_expected = ((0.0 + 1.0 + 1.0) + 1e16) - 1e16;
    assert_eq!(s_sum(&other), Ok(Scalar::Float(f64::to_bits(other_expected))));
    let pieces = explorer::s_append(
        &floats(&[Some(1e16), Some(1.0)]),
        &floats(&[Some(-1e16), None, Some(1.0)]),
    )
    .unwrap();
    assert_eq!(s_sum(&pieces), Ok(Scalar::Float(f64::to_bits(expected))));
    assert_eq!(
        s_mean(&pieces),
        Ok(Scalar::Float(f64::to_bits(expected / 4.0)))
    );
}

#[test]
fn mean_of_booleans_and_floats() {
    let b = s_new_bool("b", vec![Some(true), Some(false), None]);
    assert_eq!(float_of(s_mean(&b)), 0.5);
    assert_eq!(float_of(s_mean(&floats(&[Some(1.0), Some(2.0)]))), 1.5);
}

#[test]
fn median_of_odd_and_even_counts() {
    let odd = s_new_i64("a", vec![Some(3), None, Some(1), Some(2)]);
    assert_eq!(float_of(s_median(&odd)), 2.0);
    let even = s_new_i64("a", vec![Some(4), Some(1), Some(3), Some(2)]);
    assert_eq!(float_of(s_median(&even)), 2.5);
    let f = floats(&[Some(1.0), None, Some(f64::NAN), Some(3.0)]);
    assert_eq!(s_median(&f), Err(ExplorerError::OutOfRange));
    let g = floats(&[Some(4.0), None, Some(-1.0), Some(3.0)]);
    assert_eq!(float_of(s_median(&g)), 3.0);
}

#[test]
fn variance_divides_by_one_less_than_the_count() {
    let s = s_new_i64("a", vec![Some(1), Some(2), Some(3), Some(4), None]);
    let var = float_of(s_var(&s));
    assert!((var - 5.0 / 3.0).abs() < 1e-12);
    let std = float_of(s_std(&s));
    assert!((std - (5.0f64 / 3.0).sqrt()).abs() < 1e-12);
    let one = s_new_i64("a", vec![Some(1)]);
    assert!(matches!(s_var(&one), Ok(Scalar::Float(_))));
}

#[test]
fn a_quantile_lies_between_zero_and_one() {
    let s = s_new_i64("a", vec![Some(3), None, Some(1)]);
    for q in [0.0f64, -0.0, 0.25, 0.5, 1.0, f64::MIN_POSITIVE, 5e-324] {
        let values = quantile_input(&s, q.to_bits()).unwrap();
        assert_eq!(
            explorer::s_to_list(&values),
            Ok(vec![Scalar::Integer(3), Scalar::Integer(1)])
        );
    }
    let above = f64::from_bits(1.0f64.to_bits() + 1);
    for q in [above, 2.0, -0.5, -1.0, -5e-324, f64::NAN, f64::INFINITY, f64::NEG_INFINITY] {
        assert!(matches!(
            quantile_input(&s, q.to_bits()),
            Err(ExplorerError::OutOfRange)
        ));
    }
    let b = s_new_bool("b", vec![Some(true)]);
    assert!(matches!(
        quantile_input(&b, 0.5f64.to_bits()),
        Err(ExplorerError::TypeMismatch)
    ));
    assert!(matches!(
        quantile_input(&b, 1.5f64.to_bits()),
        Err(ExplorerError::OutOfRange)
    ));
}

#[test]
fn reductions_refuse_strings() {
    let w = s_new_str("w", vec![Some("x".to_string())]);
    assert_eq!(s_sum(&w), Err(ExplorerError::TypeMismatch));
    assert_eq!(s_min(&w), Err(ExplorerError::TypeMismatch));
    assert_eq!(s_max(&w), Err(ExplorerError::TypeMismatch));
    assert_eq!(s_mean(&w), Err(ExplorerError::TypeMismatch));
    assert_eq!(s_median(&w), Err(ExplorerError::TypeMismatch));
    assert_eq!(s_var(&w), Err(ExplorerError::TypeMismatch));
    assert_eq!(s_std(&w), Err(ExplorerError::TypeMismatch));
}

#[test]
fn median_and_variance_refuse_booleans() {
    let b = s_new_bool("b", vec![Some(true)]);
    assert_eq!(s_median(&b), Err(ExplorerError::TypeMismatch));
    assert_eq!(s_var(&b), Err(ExplorerError::TypeMismatch));
    assert_eq!(s_std(&b), Err(ExplorerError::TypeMismatch));
}
