use explorer::{
    s_arg_true, s_drop_nulls, s_filter, s_is_not_null, s_is_null, s_len, s_new_bool,
    s_new_i64, s_new_str, s_not, s_null_count, s_take, s_to_list, Dtype, ExSeries, ExplorerError,
    Scalar,
};

fn ints(values: &[Option<i64>]) -> Vec<Scalar> {
    values
        .iter()
        .map(|v| match v {
            Some(i) => Scalar::Integer(*i),
            None => Scalar::Null,
        })
        .collect()
}

fn bools(values: &[Option<bool>]) -> Vec<Scalar> {
    values
        .iter()
        .map(|v| match v {
            Some(b) => Scalar::Boolean(*b),
            None => Scalar::Null,
        })
        .collect()
}

fn list(s: &ExSeries) -> Vec<Scalar> {
    s_to_list(s).unwrap()
}

#[test]
fn is_null_marks_the_nulls() {
    let s = s_new_i64("a", vec![Some(1), None, Some(3)]);
    let mask = s_is_null(&s).unwrap();
    assert_eq!(mask.dtype(), Some(Dtype::Boolean));
    assert_eq!(
        list(&mask),
        bools(&[Some(false), Some(true), Some(false)])
    );
    assert_eq!(
        list(&s_is_not_null(&s).unwrap()),
        bools(&[Some(true), Some(false), Some(true)])
    );
    let full = s_new_i64("a", vec![Some(1)]);
    assert_eq!(list(&s_is_null(&full).unwrap()), bools(&[Some(false)]));
    assert_eq!(list(&s_is_not_null(&full).unwrap()), bools(&[Some(true)]));
}

#[test]
fn drop_nulls_leaves_no_null() {
    let s = s_new_i64("a", vec![None, Some(1), None, Some(3), None]);
    let d = s_drop_nulls(&s).unwrap();
    assert_eq!(list(&d), ints(&[Some(1), Some(3)]));
    assert_eq!(s_null_count(&d), Ok(0));
    assert_eq!(
        s_len(&d).unwrap(),
        s_len(&s).unwrap() - s_null_count(&s).unwrap()
    );
}

#[test]
fn drop_nulls_of_one_null_is_empty() {
    let s = s_new_i64("a", vec![None]);
    assert_eq!(list(&s_drop_nulls(&s).unwrap()), vec![]);
    let w = s_new_str("w", vec![None, Some("x".to_string())]);
    assert_eq!(
        list(&s_drop_nulls(&w).unwrap()),
        vec![Scalar::Utf8("x".to_string())]
    );
}

#[test]
fn filter_keeps_where_the_mask_is_true() {
    let s = s_new_i64("a", vec![Some(1), Some(2), None, Some(4)]);
    let mask = s_new_bool("m", vec![Some(true), Some(false), Some(true), None]);
    let f = s_filter(&s, &mask).unwrap();
    assert_eq!(list(&f), ints(&[Some(1), None]));
    let count_true = list(&mask)
        .iter()
        .filter(|m| **m == Scalar::Boolean(true))
        .count();
    assert_eq!(s_len(&f), Ok(count_true));
}

#[test]
fn filter_of_one_cell() {
    let s = s_new_i64("a", vec![Some(1)]);
    let yes = s_new_bool("m", vec![Some(true)]);
    let no = s_new_bool("m", vec![Some(false)]);
    let null = s_new_bool("m", vec![None]);
    assert_eq!(list(&s_filter(&s, &yes).unwrap()), ints(&[Some(1)]));
    assert_eq!(list(&s_filter(&s, &no).unwrap()), vec![]);
    assert_eq!(list(&s_filter(&s, &null).unwrap()), vec![]);
}

#[test]
fn filter_refuses_a_mask_that_is_not_boolean() {
    let s = s_new_i64("a", vec![Some(1)]);
    let mask = s_new_i64("m", vec![Some(1)]);
    assert!(matches!(
        s_filter(&s, &mask),
        Err(ExplorerError::TypeMismatch)
    ));
}

#[test]
fn filter_refuses_a_mask_of_another_length() {
    let s = s_new_i64("a", vec![Some(1), Some(2)]);
    let mask = s_new_bool("m", vec![Some(true)]);
    assert!(matches!(
        s_filter(&s, &mask),
        Err(ExplorerError::ShapeMismatch)
    ));
    let long = s_new_bool("m", vec![Some(true), Some(true), Some(true)]);
    assert!(matches!(
        s_filter(&s, &long),
        Err(ExplorerError::ShapeMismatch)
    ));
}

#[test]
fn take_gathers_in_the_order_of_the_positions() {
    let s = s_new_i64("a", vec![Some(10), None, Some(30)]);
    assert_eq!(
        list(&s_take(&s, vec![2, 0, 0, 1]).unwrap()),
        ints(&[Some(30), Some(10), Some(10), None])
    );
    assert_eq!(list(&s_take(&s, vec![]).unwrap()), vec![]);
    let w = s_new_str("w", vec![Some("x".to_string()), Some("y".to_string())]);
    assert_eq!(
        list(&s_take(&w, vec![1, 0]).unwrap()),
        vec![Scalar::Utf8("y".to_string()), Scalar::Utf8("x".to_string())]
    );
    let b = s_new_bool("b", vec![Some(true), None]);
    assert_eq!(
        list(&s_take(&b, vec![1, 0]).unwrap()),
        bools(&[None, Some(true)])
    );
}

#[test]
fn take_refuses_a_position_past_the_end() {
    let s = s_new_i64("a", vec![Some(10), None, Some(30)]);
    assert!(matches!(
        s_take(&s, vec![0, 3]),
        Err(ExplorerError::OutOfRange)
    ));
    let empty = s_new_i64("a", vec![]);
    assert!(matches!(
        s_take(&empty, vec![0]),
        Err(ExplorerError::OutOfRange)
    ));
    assert_eq!(list(&s_take(&empty, vec![]).unwrap()), vec![]);
}

#[test]
fn arg_true_lists_the_true_positions() {
    let mask = s_new_bool("m", vec![Some(true), Some(false), None, Some(true)]);
    let at = s_arg_true(&mask).unwrap();
    assert_eq!(at.dtype(), Some(Dtype::Int64));
    assert_eq!(list(&at), ints(&[Some(0), Some(3)]));
    let s = s_new_i64("a", vec![Some(1)]);
    assert!(matches!(s_arg_true(&s), Err(ExplorerError::TypeMismatch)));
}

#[test]
fn not_negates_and_keeps_nulls() {
    let mask = s_new_bool("m", vec![Some(true), Some(false), None]);
    assert_eq!(
        list(&s_not(&mask).unwrap()),
        bools(&[Some(false), Some(true), None])
    );
    let s = s_new_i64("a", vec![Some(1)]);
    assert!(matches!(s_not(&s), Err(ExplorerError::TypeMismatch)));
}
