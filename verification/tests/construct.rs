use explorer::{
    s_clone, s_get, s_len, s_name, s_new_bool, s_new_i64, s_new_str, s_null_count,
    s_rename, s_to_list, Dtype, ExplorerError, Scalar,
};

fn ints(values: &[Option<i64>]) -> Vec<Scalar> {
    values
        .iter()
        .map(|v| match v {
            Some(i) => Scalar::Integer(*i),
            None => Scalar::Null,
        })
        .collect()
}

#[test]
fn new_i64_keeps_values_and_nulls() {
    let s = s_new_i64("a", vec![Some(1), None, Some(3)]);
    assert_eq!(s_len(&s), Ok(3));
    assert_eq!(s_null_count(&s), Ok(1));
    assert_eq!(s_name(&s), Ok("a".to_string()));
    assert_eq!(s.dtype(), Some(Dtype::Int64));
    assert_eq!(s_to_list(&s), Ok(ints(&[Some(1), None, Some(3)])));
}

#[test]
fn new_bool_keeps_values_and_nulls() {
    let s = s_new_bool("flags", vec![Some(true), None, Some(false)]);
    assert_eq!(s.dtype(), Some(Dtype::Boolean));
    assert_eq!(
        s_to_list(&s),
        Ok(vec![Scalar::Boolean(true), Scalar::Null, Scalar::Boolean(false)])
    );
}

#[test]
fn new_str_keeps_values_and_nulls() {
    let s = s_new_str("words", vec![Some("a".to_string()), None]);
    assert_eq!(s.dtype(), Some(Dtype::Utf8));
    assert_eq!(
        s_to_list(&s),
        Ok(vec![Scalar::Utf8("a".to_string()), Scalar::Null])
    );
}

#[test]
fn empty_series_has_no_cells() {
    let s = s_new_i64("none", vec![]);
    assert_eq!(s_len(&s), Ok(0));
    assert_eq!(s_null_count(&s), Ok(0));
    assert_eq!(s_to_list(&s), Ok(vec![]));
}

#[test]
fn get_reads_each_position() {
    let s = s_new_i64("a", vec![Some(7), None]);
    assert_eq!(s_get(&s, 0), Ok(Scalar::Integer(7)));
    assert_eq!(s_get(&s, 1), Ok(Scalar::Null));
}

#[test]
fn get_past_the_end_is_out_of_range() {
    let s = s_new_i64("a", vec![Some(1)]);
    assert_eq!(s_get(&s, 1), Err(ExplorerError::OutOfRange));
    assert_eq!(s_get(&s, usize::MAX), Err(ExplorerError::OutOfRange));
}

#[test]
fn clone_is_equal_cell_for_cell() {
    let s = s_new_i64("a", vec![Some(1), None, Some(3)]);
    let c = s_clone(&s).unwrap();
    assert_eq!(s_to_list(&c), s_to_list(&s));
    assert_eq!(s_name(&c), s_name(&s));
    assert_eq!(c.dtype(), s.dtype());
    assert_eq!(s_null_count(&c), s_null_count(&s));
}

#[test]
fn rename_changes_only_the_name() {
    let mut s = s_new_i64("a", vec![Some(1), None]);
    let before = s_clone(&s).unwrap();
    s_rename(&mut s, "b");
    assert_eq!(s_name(&s), Ok("b".to_string()));
    assert_eq!(s_to_list(&s), Ok(ints(&[Some(1), None])));
    assert_eq!(s_name(&before), Ok("a".to_string()));
}
