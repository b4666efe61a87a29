use explorer::{
    s_add, s_append, s_cast, s_div, s_eq, s_filter, s_gt, s_gt_eq, s_lt, s_lt_eq, s_mul,
    s_n_chunks, s_neq, s_new_bool, s_new_i64, s_new_str, s_series_equal, s_slice, s_sub, s_take,
    s_to_list, s_zip_with, ExSeries,
};

/// An empty series of each dtype that is stored in no piece, beside one that
/// was built empty.
fn empty_pairs() -> Vec<(ExSeries, ExSeries)> {
    let ints = s_new_i64("s", vec![Some(1), None]);
    let bools = s_new_bool("s", vec![Some(true), None]);
    let strs = s_new_str("s", vec![Some("a".to_string()), None]);
    let mut out = Vec::new();
    for full in [
        ints.clone(),
        bools,
        strs,
        s_cast(&ints, "float").unwrap(),
        s_cast(&ints, "date").unwrap(),
        s_cast(&ints, "datetime").unwrap(),
    ] {
        let past = s_slice(&full, 2, 5).unwrap();
        let built = s_slice(&full, 0, 0).unwrap();
        assert_eq!(s_n_chunks(&past), Ok(0));
        assert_eq!(s_n_chunks(&built), Ok(1));
        out.push((past, built));
    }
    out
}

#[test]
fn taking_nothing_of_a_series_in_no_piece_gives_one_piece() {
    for (past, built) in empty_pairs() {
        let taken = s_take(&past, vec![]).unwrap();
        assert_eq!(s_n_chunks(&taken), Ok(1));
        assert_eq!(s_to_list(&taken), Ok(vec![]));
        assert_eq!(taken.dtype(), past.dtype());
        assert_eq!(s_n_chunks(&s_take(&built, vec![]).unwrap()), Ok(1));
    }
}

#[test]
fn two_empty_series_are_combined_however_they_are_stored() {
    for (past, built) in empty_pairs() {
        for (a, b) in [(&past, &built), (&built, &past), (&past, &past)] {
            assert_eq!(s_series_equal(a, b, true), Ok(true));
            assert_eq!(s_series_equal(a, b, false), Ok(true));
            assert_eq!(s_to_list(&s_append(a, b).unwrap()), Ok(vec![]));
            for r in [s_eq(a, b), s_neq(a, b), s_gt(a, b), s_gt_eq(a, b), s_lt(a, b), s_lt_eq(a, b)] {
                assert_eq!(s_to_list(&r.unwrap()), Ok(vec![]));
            }
            for r in [s_add(a, b), s_sub(a, b), s_mul(a, b), s_div(a, b)] {
                if let Ok(r) = r {
                    assert_eq!(s_to_list(&r), Ok(vec![]));
                }
            }
        }
    }
}

#[test]
fn an_empty_mask_in_no_piece_filters_and_chooses() {
    let masks = s_new_bool("m", vec![Some(true), Some(false)]);
    let past_mask = s_slice(&masks, 2, 1).unwrap();
    let built_mask = s_new_bool("m", vec![]);
    assert_eq!(s_n_chunks(&past_mask), Ok(0));
    for (past, built) in empty_pairs() {
        for mask in [&past_mask, &built_mask] {
            for s in [&past, &built] {
                assert_eq!(s_to_list(&s_filter(s, mask).unwrap()), Ok(vec![]));
                assert_eq!(s_to_list(&s_zip_with(s, mask, &built).unwrap()), Ok(vec![]));
                assert_eq!(s_to_list(&s_zip_with(s, mask, &past).unwrap()), Ok(vec![]));
            }
        }
    }
}

/// A series of two cells of each dtype.
fn full_ones() -> Vec<ExSeries> {
    let ints = s_new_i64("s", vec![Some(1), None]);
    vec![
        ints.clone(),
        s_new_bool("s", vec![Some(true), None]),
        s_new_str("s", vec![Some("a".to_string()), None]),
        s_cast(&ints, "float").unwrap(),
        s_cast(&ints, "date").unwrap(),
        s_cast(&ints, "datetime").unwrap(),
    ]
}

#[test]
fn taking_nothing_gives_one_piece_whatever_the_series_holds() {
    for full in full_ones() {
        let joined = s_append(&full, &full).unwrap();
        for s in [&full, &joined, &s_slice(&joined, 1, 2).unwrap()] {
            let taken = s_take(s, vec![]).unwrap();
            assert_eq!(s_n_chunks(&taken), Ok(1));
            assert_eq!(s_to_list(&taken), Ok(vec![]));
            assert_eq!(taken.dtype(), full.dtype());
        }
    }
}

#[test]
fn joining_adds_the_pieces_whatever_the_series_hold() {
    for full in full_ones() {
        let before = s_n_chunks(&full).unwrap();
        let two = s_append(&full, &full).unwrap();
        assert_eq!(s_n_chunks(&two), Ok(2 * before));
        let three = s_append(&two, &full).unwrap();
        assert_eq!(s_n_chunks(&three), Ok(3 * before));
        let empty = s_take(&full, vec![]).unwrap();
        assert_eq!(s_n_chunks(&s_append(&empty, &three).unwrap()), Ok(3 * before));
        assert_eq!(s_n_chunks(&s_append(&three, &empty).unwrap()), Ok(3 * before + 1));
        let past = s_slice(&full, 2, 1).unwrap();
        assert_eq!(s_n_chunks(&s_append(&past, &three).unwrap()), Ok(3 * before));
        assert_eq!(s_n_chunks(&s_append(&three, &past).unwrap()), Ok(3 * before));
        let one = explorer::s_rechunk(&three).unwrap();
        assert_eq!(s_n_chunks(&one), Ok(1));
        assert_eq!(s_to_list(&one), s_to_list(&three));
    }
}
