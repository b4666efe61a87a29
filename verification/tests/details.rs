use explorer::{
    quantile_plan, s_argsort, s_cast, s_dtype, s_head, s_limit, s_median, s_name, s_new_bool,
    s_new_i64, s_new_str, s_reverse, s_rolling_mean, s_seedable_random_indices, s_shift, s_slice,
    s_sort, s_std, s_tail, s_take, s_take_every, s_to_dummies, s_to_list, s_value_counts, s_var,
    ExSeries, ExplorerError, QuantilePlan, Scalar,
};
use polars::prelude::{NamedFrom, Series};

fn decimals(name: &str, values: &[Option<f64>]) -> ExSeries {
    ExSeries::new(Series::new(name, values))
}

fn decimal(v: f64) -> Scalar {
    Scalar::Float(v.to_bits())
}

fn cells(s: &ExSeries) -> Vec<Scalar> {
    s_to_list(s).unwrap()
}

fn six() -> Vec<ExSeries> {
    let whole = s_new_i64("col", vec![Some(3), None, Some(-7), Some(3), Some(0)]);
    vec![
        whole.clone(),
        s_new_bool("col", vec![Some(true), None, Some(false), Some(true), Some(true)]),
        s_new_str(
            "col",
            vec![Some("pear".to_string()), None, Some(String::new()), Some("pear".to_string()), Some("Zed".to_string())],
        ),
        s_cast(&whole, "float").unwrap(),
        s_cast(&whole, "date").unwrap(),
        s_cast(&whole, "datetime").unwrap(),
    ]
}

#[test]
fn cutting_and_turning_keep_the_name() {
    for s in six() {
        let name = Ok("col".to_string());
        assert_eq!(s_name(&s_head(&s, Some(2)).unwrap()), name);
        assert_eq!(s_name(&s_head(&s, None).unwrap()), name);
        assert_eq!(s_name(&s_tail(&s, Some(2)).unwrap()), name);
        assert_eq!(s_name(&s_limit(&s, 3).unwrap()), name);
        assert_eq!(s_name(&s_slice(&s, 1, 3).unwrap()), name);
        assert_eq!(s_name(&s_slice(&s, 9, 3).unwrap()), name);
        assert_eq!(s_name(&s_reverse(&s).unwrap()), name);
        assert_eq!(s_name(&s_shift(&s, 2).unwrap()), name);
        assert_eq!(s_name(&s_shift(&s, -1).unwrap()), name);
        assert_eq!(s_name(&s_take_every(&s, 2).unwrap()), name);
        assert_eq!(s_name(&s_sort(&s, true).unwrap()), name);
        let whole = s_slice(&s, 2, 3).unwrap();
        assert_eq!(s_name(&s_reverse(&whole).unwrap()), name);
        assert_eq!(s_name(&s_take_every(&whole, 2).unwrap()), name);
    }
}

#[test]
fn the_dtypes_are_printed_by_their_names() {
    let names: Vec<String> = six().iter().map(|s| s_dtype(s).unwrap()).collect();
    assert_eq!(names, vec!["i64", "bool", "str", "f64", "date32(days)", "date64(ms)"]);
}

#[test]
fn zeros_and_infinities_are_sorted_as_numbers() {
    let values = [
        Some(0.0),
        Some(f64::INFINITY),
        Some(-0.0),
        None,
        Some(-1.5),
        Some(5e-324),
        Some(f64::NEG_INFINITY),
        Some(-5e-324),
        Some(1e300),
        Some(0.0),
        None,
    ];
    let s = decimals("f", &values);
    let up = vec![
        Scalar::Null,
        Scalar::Null,
        decimal(f64::NEG_INFINITY),
        decimal(-1.5),
        decimal(-5e-324),
        decimal(0.0),
        decimal(-0.0),
        decimal(0.0),
        decimal(5e-324),
        decimal(1e300),
        decimal(f64::INFINITY),
    ];
    assert_eq!(cells(&s_sort(&s, false).unwrap()), up);
    let down = vec![
        decimal(f64::INFINITY),
        decimal(1e300),
        decimal(5e-324),
        decimal(0.0),
        decimal(-0.0),
        decimal(0.0),
        decimal(-5e-324),
        decimal(-1.5),
        decimal(f64::NEG_INFINITY),
        Scalar::Null,
        Scalar::Null,
    ];
    assert_eq!(cells(&s_sort(&s, true).unwrap()), down);
    assert_eq!(
        s_argsort(&s, false).unwrap(),
        vec![3, 10, 6, 4, 7, 0, 2, 9, 5, 8, 1].into_iter().map(Some).collect::<Vec<_>>()
    );
}

#[test]
fn taking_at_the_sorting_positions_sorts_floats_too() {
    let s = decimals(
        "f",
        &[Some(2.5), Some(-0.0), None, Some(0.0), Some(2.5), Some(-3.0), None, Some(0.0)],
    );
    for reverse in [false, true] {
        let order: Vec<u32> = s_argsort(&s, reverse).unwrap().into_iter().map(|p| p.unwrap()).collect();
        assert_eq!(
            cells(&s_take(&s, order).unwrap()),
            cells(&s_sort(&s, reverse).unwrap())
        );
    }
}

#[test]
fn strings_are_sorted_by_their_characters() {
    let s = s_new_str(
        "t",
        ["b", "", "a", "Z", "ab", "é", "a", "zz", "aa"]
            .iter()
            .map(|t| Some(t.to_string()))
            .chain([None])
            .collect(),
    );
    let sorted: Vec<Scalar> = cells(&s_sort(&s, false).unwrap());
    let expected: Vec<Scalar> = [None, Some(""), Some("Z"), Some("a"), Some("a"), Some("aa"), Some("ab"), Some("b"), Some("zz"), Some("é")]
        .iter()
        .map(|t| match t {
            Some(t) => Scalar::Utf8(t.to_string()),
            None => Scalar::Null,
        })
        .collect();
    assert_eq!(sorted, expected);
    assert_eq!(
        s_argsort(&s, true).unwrap(),
        vec![5, 7, 0, 4, 8, 2, 6, 3, 1, 9].into_iter().map(Some).collect::<Vec<_>>()
    );
}

#[test]
fn equal_cells_keep_the_order_of_their_positions() {
    let s = s_new_i64("k", vec![Some(2), Some(1), None, Some(2), Some(1), None, Some(2)]);
    assert_eq!(
        s_argsort(&s, false).unwrap(),
        vec![2, 5, 1, 4, 0, 3, 6].into_iter().map(Some).collect::<Vec<_>>()
    );
    assert_eq!(
        s_argsort(&s, true).unwrap(),
        vec![0, 3, 6, 1, 4, 2, 5].into_iter().map(Some).collect::<Vec<_>>()
    );
    let many = s_new_i64("k", (0..1000).map(|i| Some((i * 7919) % 13)).collect());
    let order: Vec<u32> = s_argsort(&many, false).unwrap().into_iter().map(|p| p.unwrap()).collect();
    let mut expected: Vec<u32> = (0..1000).collect();
    expected.sort_by_key(|p| (*p as i64 * 7919) % 13);
    assert_eq!(order, expected);
}

#[test]
fn the_median_is_the_middle_of_the_sorted_values() {
    assert_eq!(s_median(&s_new_i64("a", vec![Some(4), None, Some(1), Some(3), Some(2)])), Ok(decimal(2.5)));
    assert_eq!(s_median(&s_new_i64("a", vec![Some(9), Some(-1), None, Some(3)])), Ok(decimal(3.0)));
    assert_eq!(s_median(&s_new_i64("a", vec![Some(7)])), Ok(decimal(7.0)));
    assert_eq!(s_median(&s_new_i64("a", vec![None, None])), Ok(Scalar::Null));
    assert_eq!(s_median(&s_new_i64("a", vec![])), Ok(Scalar::Null));
    assert_eq!(
        s_median(&decimals("f", &[Some(1.5), Some(f64::INFINITY), Some(-2.0), Some(0.25)])),
        Ok(decimal(0.875))
    );
    assert_eq!(
        s_median(&decimals("f", &[Some(1.5), Some(f64::NAN), Some(-2.0)])),
        Err(ExplorerError::OutOfRange)
    );
    assert_eq!(
        s_median(&s_new_bool("b", vec![Some(true)])),
        Err(ExplorerError::TypeMismatch)
    );
    let cut = s_slice(&s_new_i64("a", vec![Some(100), Some(5), None, Some(1), Some(3), Some(-100)]), 1, 4).unwrap();
    assert_eq!(s_median(&cut), Ok(decimal(3.0)));
}

#[test]
fn variance_and_deviation_are_floats_or_null() {
    let s = s_new_i64("a", vec![Some(1), Some(2), Some(3), Some(4), None]);
    match s_var(&s).unwrap() {
        Scalar::Float(bits) => assert!((f64::from_bits(bits) - 5.0 / 3.0).abs() < 1e-12),
        other => panic!("no float: {:?}", other),
    }
    match s_std(&s).unwrap() {
        Scalar::Float(bits) => assert!((f64::from_bits(bits) - (5.0f64 / 3.0).sqrt()).abs() < 1e-12),
        other => panic!("no float: {:?}", other),
    }
    assert!(matches!(s_var(&s_new_i64("a", vec![Some(1)])), Ok(Scalar::Float(_))));
    assert_eq!(s_var(&s_new_i64("a", vec![None])), Ok(Scalar::Null));
    assert_eq!(s_std(&s_new_i64("a", vec![])), Ok(Scalar::Null));
}

#[test]
fn a_sample_larger_than_the_range_holds_every_position() {
    let mut all = s_seedable_random_indices(10, usize::MAX, false, 42);
    assert_eq!(all.len(), 10);
    all.sort();
    assert_eq!(all, (0..10).collect::<Vec<usize>>());
    assert_eq!(
        s_seedable_random_indices(10, usize::MAX, false, 42),
        s_seedable_random_indices(10, 10, false, 42)
    );
    assert_eq!(
        s_seedable_random_indices(10, 11, false, 7),
        s_seedable_random_indices(10, 10, false, 7)
    );
    assert!(s_seedable_random_indices(0, usize::MAX, false, 1).is_empty());
}

#[test]
fn a_mean_over_one_cell_keeps_the_nulls() {
    let s = s_new_i64("a", vec![Some(4), None, Some(-2), None]);
    let rolled = s_rolling_mean(&s, 1, true, None).unwrap();
    assert_eq!(cells(&rolled), vec![decimal(4.0), Scalar::Null, decimal(-2.0), Scalar::Null]);
    assert_eq!(s_name(&rolled), Ok("a".to_string()));
    let rolled = s_rolling_mean(&s, 1, false, Some(1)).unwrap();
    assert_eq!(cells(&rolled), vec![decimal(4.0), Scalar::Null, decimal(-2.0), Scalar::Null]);
}

#[test]
fn a_string_that_is_no_date_becomes_null() {
    let s = s_new_str(
        "d",
        vec![Some("2021-01-01".to_string()), Some("nope".to_string()), None, Some("1970-01-02".to_string())],
    );
    let dates = s_cast(&s, "date").unwrap();
    assert_eq!(
        cells(&dates),
        vec![Scalar::Integer(18_628), Scalar::Null, Scalar::Null, Scalar::Integer(1)]
    );
    assert_eq!(s_name(&dates), Ok("d".to_string()));
    let numbers = s_cast(&s_new_str("n", vec![Some("12".to_string()), Some("x".to_string()), None]), "integer").unwrap();
    assert_eq!(cells(&numbers), vec![Scalar::Integer(12), Scalar::Null, Scalar::Null]);
}

#[test]
fn indicator_columns_are_named_after_their_cells() {
    let s = s_new_i64("k", vec![Some(10), Some(-7), None, Some(10), Some(i64::MIN), Some(0)]);
    let columns = s_to_dummies(&s).unwrap();
    let names: Vec<String> = columns.iter().map(|c| s_name(c).unwrap()).collect();
    assert_eq!(names, vec!["k_", "k_-7", "k_-9223372036854775808", "k_0", "k_10"]);
    let flags = |c: &ExSeries| -> Vec<i64> {
        cells(c)
            .iter()
            .map(|v| match v {
                Scalar::Integer(i) => *i,
                _ => panic!("no integer"),
            })
            .collect()
    };
    assert_eq!(flags(&columns[0]), vec![0, 0, 1, 0, 0, 0]);
    assert_eq!(flags(&columns[1]), vec![0, 1, 0, 0, 0, 0]);
    assert_eq!(flags(&columns[2]), vec![0, 0, 0, 0, 1, 0]);
    assert_eq!(flags(&columns[3]), vec![0, 0, 0, 0, 0, 1]);
    assert_eq!(flags(&columns[4]), vec![1, 0, 0, 1, 0, 0]);

    let t = s_new_str("t", vec![Some("b".to_string()), Some("a b".to_string()), Some("b".to_string())]);
    let columns = s_to_dummies(&t).unwrap();
    let names: Vec<String> = columns.iter().map(|c| s_name(c).unwrap()).collect();
    assert_eq!(names, vec!["t_a b", "t_b"]);
    assert_eq!(flags(&columns[1]), vec![1, 0, 1]);

    let d = s_cast(&s_new_i64("d", vec![Some(366), Some(1)]), "date").unwrap();
    let names: Vec<String> = s_to_dummies(&d).unwrap().iter().map(|c| s_name(c).unwrap()).collect();
    assert_eq!(names, vec!["d_1", "d_366"]);
    assert!(s_to_dummies(&s_new_i64("e", vec![])).unwrap().is_empty());
}

#[test]
fn the_cells_that_occur_most_often_come_first() {
    let s = s_new_str(
        "t",
        ["a", "b", "a", "c", "b", "a"].iter().map(|t| Some(t.to_string())).chain([None, None]).collect(),
    );
    let counted = s_value_counts(&s).unwrap();
    assert_eq!(
        cells(&counted.values),
        vec![
            Scalar::Utf8("a".to_string()),
            cells(&counted.values)[1].clone(),
            cells(&counted.values)[2].clone(),
            Scalar::Utf8("c".to_string()),
        ]
    );
    assert_eq!(
        cells(&counted.counts),
        vec![Scalar::Integer(3), Scalar::Integer(2), Scalar::Integer(2), Scalar::Integer(1)]
    );
    let mut middle = vec![cells(&counted.values)[1].clone(), cells(&counted.values)[2].clone()];
    middle.sort_by_key(|v| format!("{:?}", v));
    assert_eq!(middle, vec![Scalar::Null, Scalar::Utf8("b".to_string())]);
    assert_eq!(s_name(&counted.values), Ok("t".to_string()));
    assert_eq!(s_name(&counted.counts), Ok("counts".to_string()));
    let nulls = s_value_counts(&s_new_i64("counts", vec![None, None, None])).unwrap();
    assert_eq!(cells(&nulls.values), vec![Scalar::Null]);
    assert_eq!(cells(&nulls.counts), vec![Scalar::Integer(3)]);
    assert_eq!(s_name(&nulls.values), Ok("counts".to_string()));
}

#[test]
fn a_quantile_is_planned_by_the_values_and_the_quantile() {
    let s = s_new_i64("a", vec![Some(4), None, Some(9), Some(-1)]);
    match quantile_plan(&s, 0.5f64.to_bits()).unwrap() {
        QuantilePlan::Ask(values) => {
            assert_eq!(cells(&values), vec![Scalar::Integer(4), Scalar::Integer(9), Scalar::Integer(-1)]);
            assert_eq!(s_name(&values), Ok("a".to_string()));
        }
        other => panic!("not asked: {:?}", other),
    }
    match quantile_plan(&s, 1.0f64.to_bits()).unwrap() {
        QuantilePlan::Greatest(one) => assert_eq!(cells(&one), vec![Scalar::Integer(9)]),
        other => panic!("not the greatest: {:?}", other),
    }
    match quantile_plan(&s_new_i64("a", vec![None]), 1.0f64.to_bits()).unwrap() {
        QuantilePlan::Empty(none) => assert_eq!(cells(&none), vec![]),
        other => panic!("not empty: {:?}", other),
    }
    match quantile_plan(&decimals("f", &[Some(0.5), Some(2.0)]), 0.0f64.to_bits()).unwrap() {
        QuantilePlan::Ask(values) => assert_eq!(cells(&values), vec![decimal(0.5), decimal(2.0)]),
        other => panic!("not asked: {:?}", other),
    }
    assert!(matches!(
        quantile_plan(&s, 1.5f64.to_bits()),
        Err(ExplorerError::OutOfRange)
    ));
    assert!(matches!(
        quantile_plan(&s, (-0.5f64).to_bits()),
        Err(ExplorerError::OutOfRange)
    ));
    assert!(matches!(
        quantile_plan(&s_new_bool("b", vec![Some(true)]), 0.5f64.to_bits()),
        Err(ExplorerError::TypeMismatch)
    ));
}
