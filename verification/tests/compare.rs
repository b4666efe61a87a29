use explorer::{
    s_append, s_eq, s_gt, s_gt_eq, s_lt, s_lt_eq, s_neq, s_new_bool, s_new_i64,
    s_new_str, s_to_list, Dtype, ExSeries, ExplorerError, Scalar,
};
use polars::prelude::{NamedFrom, Series};

fn bools(values: &[Option<bool>]) -> Vec<Scalar> {
    values
        .iter()
        .map(|v| match v {
            Some(b) => Scalar::Boolean(*b),
            None => Scalar::Null,
        })
        .collect()
}

fn list(s: &ExSeries) -> Vec<Scalar> {
    s_to_list(s).unwrap()
}

fn floats(values: &[Option<f64>]) -> ExSeries {
    ExSeries::new(Series::new("f", values))
}

fn strs(values: &[Option<&str>]) -> ExSeries {
    s_new_str("w", values.iter().map(|v| v.map(|s| s.to_string())).collect())
}

#[test]
fn comparisons_of_integers() {
    let a = s_new_i64("a", vec![Some(1), Some(2), Some(3), None, Some(5)]);
    let b = s_new_i64("b", vec![Some(2), Some(2), Some(1), Some(4), None]);
    let t = Some(true);
    let f = Some(false);
    let eq = s_eq(&a, &b).unwrap();
    assert_eq!(eq.dtype(), Some(Dtype::Boolean));
    assert_eq!(list(&eq), bools(&[f, t, f, None, None]));
    assert_eq!(list(&s_neq(&a, &b).unwrap()), bools(&[t, f, t, None, None]));
    assert_eq!(list(&s_gt(&a, &b).unwrap()), bools(&[f, f, t, None, None]));
    assert_eq!(list(&s_gt_eq(&a, &b).unwrap()), bools(&[f, t, t, None, None]));
    assert_eq!(list(&s_lt(&a, &b).unwrap()), bools(&[t, f, f, None, None]));
    assert_eq!(list(&s_lt_eq(&a, &b).unwrap()), bools(&[t, t, f, None, None]));
}

#[test]
fn comparisons_of_one_cell_keep_nulls() {
    let one = s_new_i64("a", vec![Some(1)]);
    let two = s_new_i64("b", vec![Some(2)]);
    let null = s_new_i64("c", vec![None]);
    assert_eq!(list(&s_lt(&one, &two).unwrap()), bools(&[Some(true)]));
    assert_eq!(list(&s_eq(&one, &two).unwrap()), bools(&[Some(false)]));
    assert_eq!(list(&s_eq(&one, &one).unwrap()), bools(&[Some(true)]));
    assert_eq!(list(&s_eq(&one, &null).unwrap()), bools(&[None]));
    assert_eq!(list(&s_eq(&null, &one).unwrap()), bools(&[None]));
    assert_eq!(list(&s_neq(&null, &null).unwrap()), bools(&[None]));
    assert_eq!(list(&s_gt_eq(&two, &null).unwrap()), bools(&[None]));
    let yes = s_new_bool("y", vec![Some(true)]);
    let no_value = s_new_bool("n", vec![None]);
    assert_eq!(list(&s_gt(&no_value, &yes).unwrap()), bools(&[None]));
    assert_eq!(list(&s_lt_eq(&no_value, &yes).unwrap()), bools(&[None]));
    assert_eq!(list(&s_gt_eq(&yes, &yes).unwrap()), bools(&[Some(true)]));
}

#[test]
fn comparisons_of_empty_series_are_empty() {
    let a = s_new_i64("a", vec![]);
    assert_eq!(list(&s_eq(&a, &a).unwrap()), vec![]);
    assert_eq!(list(&s_lt(&a, &a).unwrap()), vec![]);
}

#[test]
fn comparisons_of_booleans_put_false_first() {
    let a = s_new_bool("a", vec![Some(false), Some(true), Some(true), None]);
    let b = s_new_bool("b", vec![Some(true), Some(false), Some(true), Some(true)]);
    let t = Some(true);
    let f = Some(false);
    assert_eq!(list(&s_lt(&a, &b).unwrap()), bools(&[t, f, f, None]));
    assert_eq!(list(&s_gt(&a, &b).unwrap()), bools(&[f, t, f, None]));
    assert_eq!(list(&s_eq(&a, &b).unwrap()), bools(&[f, f, t, None]));
    assert_eq!(list(&s_lt_eq(&a, &b).unwrap()), bools(&[t, f, t, None]));
    assert_eq!(list(&s_gt_eq(&a, &b).unwrap()), bools(&[f, t, t, None]));
    assert_eq!(list(&s_neq(&a, &b).unwrap()), bools(&[t, t, f, None]));
}

#[test]
fn comparisons_of_strings_go_by_characters() {
    let a = strs(&[Some("a"), Some("ab"), Some("b"), Some(""), Some("é"), None]);
    let b = strs(&[Some("b"), Some("a"), Some("b"), Some("a"), Some("z"), Some("x")]);
    let t = Some(true);
    let f = Some(false);
    assert_eq!(list(&s_lt(&a, &b).unwrap()), bools(&[t, f, f, t, f, None]));
    assert_eq!(list(&s_gt(&a, &b).unwrap()), bools(&[f, t, f, f, t, None]));
    assert_eq!(list(&s_eq(&a, &b).unwrap()), bools(&[f, f, t, f, f, None]));
    assert_eq!(list(&s_neq(&a, &b).unwrap()), bools(&[t, t, f, t, t, None]));
    assert_eq!(list(&s_lt_eq(&a, &b).unwrap()), bools(&[t, f, t, t, f, None]));
    assert_eq!(list(&s_gt_eq(&a, &b).unwrap()), bools(&[f, t, t, f, t, None]));
}

#[test]
fn comparisons_of_floats_and_of_integers_with_floats() {
    let a = floats(&[Some(1.0), Some(2.5), None]);
    let b = floats(&[Some(1.0), Some(2.0), Some(1.0)]);
    assert_eq!(
        list(&s_eq(&a, &b).unwrap()),
        bools(&[Some(true), Some(false), None])
    );
    assert_eq!(
        list(&s_gt(&a, &b).unwrap()),
        bools(&[Some(false), Some(true), None])
    );
    let i = s_new_i64("i", vec![Some(1), Some(3), Some(1)]);
    assert_eq!(
        list(&s_lt(&a, &i).unwrap()),
        bools(&[Some(false), Some(true), None])
    );
    assert_eq!(
        list(&s_eq(&i, &a).unwrap()),
        bools(&[Some(true), Some(false), None])
    );
}

#[test]
fn comparisons_go_through_chunks_that_differ() {
    let a = s_append(
        &s_new_i64("a", vec![Some(1)]),
        &s_new_i64("a", vec![Some(2), None]),
    )
    .unwrap();
    let b = s_new_i64("b", vec![Some(1), Some(3), Some(3)]);
    assert_eq!(
        list(&s_eq(&a, &b).unwrap()),
        bools(&[Some(true), Some(false), None])
    );
    assert_eq!(
        list(&s_lt(&b, &a).unwrap()),
        bools(&[Some(false), Some(false), None])
    );
}

#[test]
fn comparisons_refuse_dtypes_that_do_not_go_together() {
    let a = s_new_i64("a", vec![Some(1)]);
    let w = strs(&[Some("1")]);
    let b = s_new_bool("b", vec![Some(true)]);
    assert!(matches!(s_eq(&a, &w), Err(ExplorerError::TypeMismatch)));
    assert!(matches!(s_lt(&b, &a), Err(ExplorerError::TypeMismatch)));
    assert!(matches!(s_gt(&w, &b), Err(ExplorerError::TypeMismatch)));
}

#[test]
fn comparisons_refuse_two_lengths() {
    let a = s_new_i64("a", vec![Some(1), Some(2)]);
    let b = s_new_i64("b", vec![Some(1)]);
    assert!(matches!(s_eq(&a, &b), Err(ExplorerError::ShapeMismatch)));
    assert!(matches!(s_eq(&b, &a), Err(ExplorerError::ShapeMismatch)));
}
