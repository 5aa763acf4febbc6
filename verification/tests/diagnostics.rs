use pydart::diagnostics::{check_strict, ColumnConversionRecord};
use pydart::pandas_plan::{plan_column, ArrowKind, DtypeBackend};

fn record(column: &str, zero_copy: bool, reason: Option<&str>) -> ColumnConversionRecord {
    ColumnConversionRecord {
        column: column.to_string(),
        dtype: "int64".to_string(),
        zero_copy,
        reason: reason.map(|r| r.to_string()),
    }
}

#[test]
fn record_from_plan_reflects_the_plan() {
    let borrowed = plan_column(DtypeBackend::Arrow, ArrowKind::Numeric, true);
    let r = ColumnConversionRecord::from_plan("a".to_string(), "int64[pyarrow]".to_string(), &borrowed);
    assert!(r.zero_copy);
    assert_eq!(r.reason, None);
    assert_eq!(r.column, "a");
    assert_eq!(r.dtype, "int64[pyarrow]");

    let copied = plan_column(DtypeBackend::Numpy, ArrowKind::Bool, true);
    let r = ColumnConversionRecord::from_plan("b".to_string(), "bool".to_string(), &copied);
    assert!(!r.zero_copy);
    assert!(r.reason.unwrap().contains("bit-packed"));
}

#[test]
fn chunked_import_turns_a_borrow_into_a_copy() {
    let mut r = record("a", true, None);
    r.note_chunked_import(12);
    assert!(!r.zero_copy);
    assert_eq!(
        r.reason.as_deref(),
        Some("column arrived as 12 Arrow chunks (e.g. from a pd.concat of Arrow-backed frames) and was concatenated into one contiguous buffer via arrow::compute::concat, which is a copy, not a zero-copy borrow")
    );
    let mut single = record("a", true, None);
    single.note_chunked_import(1);
    assert!(single.zero_copy);
    assert_eq!(single.reason, None);
    let mut empty = record("a", true, None);
    empty.note_chunked_import(0);
    assert!(empty.zero_copy);
}

#[test]
fn strict_mode_passes_only_when_every_column_is_zero_copy() {
    assert!(check_strict(&[]).is_ok());
    assert!(check_strict(&[record("a", true, None), record("b", true, None)]).is_ok());
    let records = [
        record("a", true, None),
        record("b", false, Some("needs a copy")),
        record("c", false, Some("also")),
    ];
    let violation = check_strict(&records).unwrap_err();
    assert_eq!(violation.column, "b");
    assert_eq!(violation.dtype, "int64");
    assert_eq!(violation.reason, "needs a copy");
}

#[test]
fn strict_mode_without_a_recorded_reason_says_so() {
    let violation = check_strict(&[record("x", false, None)]).unwrap_err();
    assert_eq!(violation.reason, "reason unavailable");
}

#[test]
fn strict_mode_agrees_with_the_copy_report() {
    let records = vec![record("a", true, None), record("b", false, Some("copy"))];
    let report_all_zero_copy = records.iter().all(|r| r.zero_copy);
    assert_eq!(check_strict(&records).is_ok(), report_all_zero_copy);
}

#[test]
fn strict_mode_message_names_column_dtype_and_reason() {
    let records = [record("ok", true, None), record("b", false, Some("numpy bool is bit-packed"))];
    let v = check_strict(&records).unwrap_err();
    assert_eq!(v.message(), "column \"b\" (dtype=int64) requires a copy: numpy bool is bit-packed");
}
