use pydart::parquet_filter::{could_match_range, Op, ScalarValue};

#[test]
fn gt_keeps_range_that_can_exceed_value() {
    assert!(could_match_range(
        Op::Gt,
        &ScalarValue::Int64(250),
        Some(&ScalarValue::Int64(200)),
        Some(&ScalarValue::Int64(299)),
    ));
}

#[test]
fn gt_skips_range_provably_below_value() {
    assert!(!could_match_range(
        Op::Gt,
        &ScalarValue::Int64(250),
        Some(&ScalarValue::Int64(0)),
        Some(&ScalarValue::Int64(99)),
    ));
}

#[test]
fn lt_skips_range_provably_at_or_above_value() {
    assert!(!could_match_range(
        Op::Lt,
        &ScalarValue::Int64(100),
        Some(&ScalarValue::Int64(100)),
        Some(&ScalarValue::Int64(199)),
    ));
}

#[test]
fn ge_keeps_range_including_boundary_value() {
    assert!(could_match_range(
        Op::Ge,
        &ScalarValue::Int64(100),
        Some(&ScalarValue::Int64(100)),
        Some(&ScalarValue::Int64(199)),
    ));
}

#[test]
fn le_skips_range_entirely_above_value() {
    assert!(!could_match_range(
        Op::Le,
        &ScalarValue::Int64(99),
        Some(&ScalarValue::Int64(100)),
        Some(&ScalarValue::Int64(199)),
    ));
}

#[test]
fn eq_keeps_range_containing_value() {
    assert!(could_match_range(
        Op::Eq,
        &ScalarValue::Int64(150),
        Some(&ScalarValue::Int64(100)),
        Some(&ScalarValue::Int64(199)),
    ));
}

#[test]
fn eq_skips_range_not_containing_value() {
    assert!(!could_match_range(
        Op::Eq,
        &ScalarValue::Int64(250),
        Some(&ScalarValue::Int64(100)),
        Some(&ScalarValue::Int64(199)),
    ));
}

#[test]
fn ne_keeps_range_with_other_values() {
    assert!(could_match_range(
        Op::Ne,
        &ScalarValue::Int64(150),
        Some(&ScalarValue::Int64(100)),
        Some(&ScalarValue::Int64(199)),
    ));
}

#[test]
fn ne_skips_single_valued_group_equal_to_excluded_value() {
    assert!(!could_match_range(
        Op::Ne,
        &ScalarValue::Int64(150),
        Some(&ScalarValue::Int64(150)),
        Some(&ScalarValue::Int64(150)),
    ));
}

#[test]
fn ne_keeps_non_single_valued_group_starting_at_excluded_value() {
    // min == value but max != min -- NOT single-valued, so != cannot prove every row equals
    // the excluded value. Must be kept (the over-pruning-safety edge from must_haves).
    assert!(could_match_range(
        Op::Ne,
        &ScalarValue::Int64(150),
        Some(&ScalarValue::Int64(150)),
        Some(&ScalarValue::Int64(199)),
    ));
}

#[test]
fn missing_min_or_max_keeps_for_every_operator() {
    let value = ScalarValue::Int64(5);
    for op in [Op::Eq, Op::Ne, Op::Lt, Op::Le, Op::Gt, Op::Ge] {
        assert!(
            could_match_range(op, &value, None, None),
            "missing min/max must conservatively keep for {op:?}"
        );
        assert!(
            could_match_range(op, &value, Some(&ScalarValue::Int64(0)), None),
            "missing max must conservatively keep for {op:?}"
        );
        assert!(
            could_match_range(op, &value, None, Some(&ScalarValue::Int64(0))),
            "missing min must conservatively keep for {op:?}"
        );
    }
}

#[test]
fn cross_type_int_and_float_comparisons_widen_correctly() {
    // A Python int filter literal (Int64) compared against a float64 column's min/max
    // (Float64 stats) must widen to f64 rather than conservatively-always-keep.
    assert!(!could_match_range(
        Op::Gt,
        &ScalarValue::Int64(250),
        Some(&ScalarValue::Float64(0.0f64.to_bits())),
        Some(&ScalarValue::Float64(99.5f64.to_bits())),
    ));
    assert!(could_match_range(
        Op::Gt,
        &ScalarValue::Float64(250.0f64.to_bits()),
        Some(&ScalarValue::Int64(200)),
        Some(&ScalarValue::Int64(299)),
    ));
}

#[test]
fn pruning_keeps_a_row_group_holding_a_match() {
    // 150 lies within [100, 199] and satisfies `x >= 150`, `x <= 150`, `x == 150`, `x != 151`.
    let lo = ScalarValue::Int64(100);
    let hi = ScalarValue::Int64(199);
    for (op, value) in [(Op::Ge, 150), (Op::Le, 150), (Op::Eq, 150), (Op::Ne, 151), (Op::Lt, 151), (Op::Gt, 149)] {
        assert!(could_match_range(op, &ScalarValue::Int64(value), Some(&lo), Some(&hi)), "{op:?} {value}");
    }
}

#[test]
fn strings_and_booleans_prune_by_their_own_order() {
    let a = ScalarValue::Utf8("apple".to_string());
    let m = ScalarValue::Utf8("mango".to_string());
    let z = ScalarValue::Utf8("zebra".to_string());
    assert!(!could_match_range(Op::Lt, &a, Some(&m), Some(&z)));
    assert!(could_match_range(Op::Gt, &a, Some(&m), Some(&z)));
    let f = ScalarValue::Bool(false);
    let t = ScalarValue::Bool(true);
    assert!(!could_match_range(Op::Eq, &f, Some(&t), Some(&t)));
    assert!(!could_match_range(Op::Ne, &t, Some(&t), Some(&t)));
}

#[test]
fn incomparable_or_nan_bounds_keep_the_row_group() {
    let nan = ScalarValue::Float64(f64::NAN.to_bits());
    assert!(could_match_range(Op::Lt, &ScalarValue::Int64(5), Some(&nan), Some(&nan)));
    let text = ScalarValue::Utf8("x".to_string());
    assert!(could_match_range(Op::Eq, &ScalarValue::Int64(5), Some(&text), Some(&text)));
}

#[test]
fn large_integer_columns_against_a_float_keep_every_widened_match() {
    // 2^53 + 1 widens to 2^53, so the row value 2^53 + 1 equals the float literal 2^53:
    // a row group holding it must be kept, even though its integer bounds lie past 2^53.
    let two_53: i64 = 1 << 53;
    let lo = ScalarValue::Int64(two_53 + 1);
    let hi = ScalarValue::Int64(two_53 + 1);
    let value = ScalarValue::Float64((two_53 as f64).to_bits());
    assert!(could_match_range(Op::Eq, &value, Some(&lo), Some(&hi)));
    assert!(could_match_range(Op::Le, &value, Some(&lo), Some(&hi)));
    assert!(!could_match_range(Op::Lt, &value, Some(&lo), Some(&hi)));
}
