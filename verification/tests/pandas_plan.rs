use pydart::pandas_plan::{plan_column, ArrowKind, ColumnPlan, DtypeBackend};

#[test]
fn plan_column_arrow_numeric_is_zero_copy_borrow() {
    assert_eq!(
        plan_column(DtypeBackend::Arrow, ArrowKind::Numeric, true),
        ColumnPlan::ZeroCopyBorrow
    );
    // is_contiguous is irrelevant for Arrow-backed columns.
    assert_eq!(
        plan_column(DtypeBackend::Arrow, ArrowKind::Numeric, false),
        ColumnPlan::ZeroCopyBorrow
    );
}

#[test]
fn plan_column_arrow_bool_is_zero_copy_borrow() {
    assert_eq!(
        plan_column(DtypeBackend::Arrow, ArrowKind::Bool, true),
        ColumnPlan::ZeroCopyBorrow
    );
    assert_eq!(
        plan_column(DtypeBackend::Arrow, ArrowKind::Bool, false),
        ColumnPlan::ZeroCopyBorrow
    );
}

#[test]
fn plan_column_numpy_bool_requires_copy() {
    assert!(matches!(
        plan_column(DtypeBackend::Numpy, ArrowKind::Bool, true),
        ColumnPlan::RequiresCopy { .. }
    ));
    assert!(matches!(
        plan_column(DtypeBackend::Numpy, ArrowKind::Bool, false),
        ColumnPlan::RequiresCopy { .. }
    ));
}

#[test]
fn plan_column_contiguous_numpy_numeric_is_zero_copy_borrow() {
    assert_eq!(
        plan_column(DtypeBackend::Numpy, ArrowKind::Numeric, true),
        ColumnPlan::ZeroCopyBorrow
    );
}

#[test]
fn plan_column_non_contiguous_numpy_numeric_requires_copy() {
    assert!(matches!(
        plan_column(DtypeBackend::Numpy, ArrowKind::Numeric, false),
        ColumnPlan::RequiresCopy { .. }
    ));
}

#[test]
fn plan_column_arrow_string_is_zero_copy_borrow() {
    assert_eq!(
        plan_column(DtypeBackend::Arrow, ArrowKind::String, true),
        ColumnPlan::ZeroCopyBorrow
    );
    // is_contiguous is irrelevant for Arrow-backed columns.
    assert_eq!(
        plan_column(DtypeBackend::Arrow, ArrowKind::String, false),
        ColumnPlan::ZeroCopyBorrow
    );
}

#[test]
fn plan_column_numpy_string_requires_copy() {
    assert!(matches!(
        plan_column(DtypeBackend::Numpy, ArrowKind::String, true),
        ColumnPlan::RequiresCopy { .. }
    ));
    assert!(matches!(
        plan_column(DtypeBackend::Numpy, ArrowKind::String, false),
        ColumnPlan::RequiresCopy { .. }
    ));
}

#[test]
fn plan_column_arrow_timestamp_is_zero_copy_borrow() {
    // is_contiguous and tz are both irrelevant for Arrow-backed columns.
    assert_eq!(
        plan_column(DtypeBackend::Arrow, ArrowKind::Timestamp { tz: None }, true),
        ColumnPlan::ZeroCopyBorrow
    );
    assert_eq!(
        plan_column(
            DtypeBackend::Arrow,
            ArrowKind::Timestamp {
                tz: Some("America/New_York".to_string())
            },
            false
        ),
        ColumnPlan::ZeroCopyBorrow
    );
}

#[test]
fn plan_column_arrow_duration_is_zero_copy_borrow() {
    assert_eq!(
        plan_column(DtypeBackend::Arrow, ArrowKind::Duration, true),
        ColumnPlan::ZeroCopyBorrow
    );
    assert_eq!(
        plan_column(DtypeBackend::Arrow, ArrowKind::Duration, false),
        ColumnPlan::ZeroCopyBorrow
    );
}

#[test]
fn plan_column_numpy_timestamp_requires_copy() {
    // is_contiguous is irrelevant -- numpy datetime64 storage always requires a copy.
    for is_contiguous in [true, false] {
        for tz in [None, Some("America/New_York".to_string())] {
            assert!(matches!(
                plan_column(DtypeBackend::Numpy, ArrowKind::Timestamp { tz }, is_contiguous),
                ColumnPlan::RequiresCopy { .. }
            ));
        }
    }
}

#[test]
fn plan_column_numpy_duration_requires_copy() {
    for is_contiguous in [true, false] {
        assert!(matches!(
            plan_column(DtypeBackend::Numpy, ArrowKind::Duration, is_contiguous),
            ColumnPlan::RequiresCopy { .. }
        ));
    }
}

#[test]
fn plan_column_categorical_requires_copy() {
    // is_contiguous is irrelevant for Categorical -- neither value changes the outcome.
    for is_contiguous in [true, false] {
        let plan = plan_column(DtypeBackend::Categorical, ArrowKind::Categorical, is_contiguous);
        match plan {
            ColumnPlan::RequiresCopy { reason } => {
                assert!(
                    reason.contains("Categorical") || reason.contains("categorical"),
                    "expected a categorical-specific reason, got: {reason:?}"
                );
            }
            other => panic!("expected RequiresCopy for Categorical, got {other:?}"),
        }
    }
}
