use pydart::dtype::{classify_dtype, non_ns_temporal_rejection_reason, PandasDtypeFacts, PyArrowTypeFacts};
use pydart::error::PydartError;
use pydart::pandas_plan::{plan_column, ArrowKind, ColumnPlan, DtypeBackend, NUMPY_DATETIME_REASON};

fn arrow_type() -> PyArrowTypeFacts {
    PyArrowTypeFacts {
        is_integer: false,
        is_floating: false,
        is_boolean: false,
        is_string: false,
        is_large_string: false,
        timestamp: None,
        duration: None,
    }
}

fn classify(facts: PandasDtypeFacts) -> Result<(DtypeBackend, ArrowKind, String), PydartError> {
    classify_dtype(&facts, "the dtype".to_string(), "col")
}

fn rejection_reason(facts: PandasDtypeFacts) -> String {
    match classify(facts) {
        Err(PydartError::UnsupportedColumn { column, dtype, reason }) => {
            assert_eq!(column, "col");
            assert_eq!(dtype, "the dtype");
            reason
        }
        other => panic!("expected an unsupported column, got {other:?}"),
    }
}

#[test]
fn arrow_dtypes_classify_by_pyarrow_predicates() {
    let numeric = PyArrowTypeFacts { is_floating: true, ..arrow_type() };
    assert_eq!(
        classify(PandasDtypeFacts::ArrowDtype(numeric)).unwrap(),
        (DtypeBackend::Arrow, ArrowKind::Numeric, "the dtype".to_string())
    );
    let boolean = PyArrowTypeFacts { is_boolean: true, ..arrow_type() };
    assert_eq!(classify(PandasDtypeFacts::ArrowDtype(boolean)).unwrap().1, ArrowKind::Bool);
    let large = PyArrowTypeFacts { is_large_string: true, ..arrow_type() };
    assert_eq!(classify(PandasDtypeFacts::ArrowDtype(large)).unwrap().1, ArrowKind::String);
    let ts = PyArrowTypeFacts {
        timestamp: Some(("ns".to_string(), Some("America/New_York".to_string()))),
        ..arrow_type()
    };
    assert_eq!(
        classify(PandasDtypeFacts::ArrowDtype(ts)).unwrap().1,
        ArrowKind::Timestamp { tz: Some("America/New_York".to_string()) }
    );
    let dur = PyArrowTypeFacts { duration: Some("ns".to_string()), ..arrow_type() };
    assert_eq!(classify(PandasDtypeFacts::ArrowDtype(dur)).unwrap().1, ArrowKind::Duration);
}

#[test]
fn arrow_dtype_outside_scope_is_rejected() {
    assert_eq!(
        rejection_reason(PandasDtypeFacts::ArrowDtype(arrow_type())),
        "only numeric (int/uint/float), boolean, string, timestamp, and duration ArrowDtype columns are supported in this phase"
    );
    let ts_us = PyArrowTypeFacts { timestamp: Some(("us".to_string(), None)), ..arrow_type() };
    assert!(rejection_reason(PandasDtypeFacts::ArrowDtype(ts_us)).starts_with("resolution \"us\" is not supported"));
}

#[test]
fn categorical_and_tz_aware_dtypes_classify() {
    assert_eq!(
        classify(PandasDtypeFacts::Categorical).unwrap(),
        (DtypeBackend::Categorical, ArrowKind::Categorical, "the dtype".to_string())
    );
    let tz = PandasDtypeFacts::DatetimeTz { unit: "ns".to_string(), tz: "Europe/Paris".to_string() };
    assert_eq!(
        classify(tz).unwrap(),
        (DtypeBackend::Numpy, ArrowKind::Timestamp { tz: Some("Europe/Paris".to_string()) }, "the dtype".to_string())
    );
    let tz_us = PandasDtypeFacts::DatetimeTz { unit: "us".to_string(), tz: "UTC".to_string() };
    assert!(rejection_reason(tz_us).contains("may now be \"us\" resolution"));
}

#[test]
fn masked_extension_dtype_is_rejected_naming_its_class() {
    let reason = rejection_reason(PandasDtypeFacts::OtherExtension { class_name: "Int64Dtype".to_string() });
    assert_eq!(
        reason,
        "pandas masked/extension dtype Int64Dtype is not supported in this phase (pandas masked nullable extension dtypes such as Int64/boolean/Float64 are out of scope; use an ArrowDtype-backed column, e.g. dtype=\"int64[pyarrow]\", for nullable numeric support)"
    );
}

#[test]
fn numpy_dtypes_classify_by_kind() {
    let kind = |k: &str, unit: Option<&str>| PandasDtypeFacts::Numpy {
        kind: k.to_string(),
        datetime_unit: unit.map(|u| u.to_string()),
    };
    assert_eq!(classify(kind("b", None)).unwrap().1, ArrowKind::Bool);
    for k in ["i", "u", "f"] {
        assert_eq!(classify(kind(k, None)).unwrap().1, ArrowKind::Numeric);
    }
    assert_eq!(classify(kind("O", None)).unwrap().1, ArrowKind::String);
    assert_eq!(classify(kind("M", Some("ns"))).unwrap().1, ArrowKind::Timestamp { tz: None });
    assert_eq!(classify(kind("m", Some("ns"))).unwrap().1, ArrowKind::Duration);
    assert_eq!(classify(kind("i", None)).unwrap().0, DtypeBackend::Numpy);
    assert!(rejection_reason(kind("M", Some("us"))).starts_with("resolution \"us\""));
    assert_eq!(
        rejection_reason(kind("c", None)),
        "only numeric (int/uint/float), boolean, object/string, datetime64, and timedelta64 columns are supported in this phase"
    );
}

#[test]
fn non_ns_reason_quotes_the_unit_twice() {
    let unit = "us";
    let expected = format!(
        "resolution {unit:?} is not supported; only nanosecond ('ns') resolution datetime64/timedelta64 columns are supported in this phase. Note: pandas 3.0 changed the default parsing resolution of pd.to_datetime()/pd.to_timedelta() from nanoseconds to microseconds, so a column built without an explicit dtype may now be {unit:?} resolution -- cast it explicitly, e.g. .astype('datetime64[ns]') (or the timedelta64 equivalent), before calling flint.Table.from_pandas"
    );
    assert_eq!(non_ns_temporal_rejection_reason(unit), expected);
}

#[test]
fn every_accepted_arrow_dtype_column_is_borrowed() {
    let accepted = [
        PyArrowTypeFacts { is_integer: true, ..arrow_type() },
        PyArrowTypeFacts { is_boolean: true, ..arrow_type() },
        PyArrowTypeFacts { is_large_string: true, ..arrow_type() },
        PyArrowTypeFacts { timestamp: Some(("ns".to_string(), Some("UTC".to_string()))), ..arrow_type() },
        PyArrowTypeFacts { duration: Some("ns".to_string()), ..arrow_type() },
    ];
    for t in accepted {
        let (backend, kind, _) = classify(PandasDtypeFacts::ArrowDtype(t)).unwrap();
        for contiguous in [true, false] {
            assert_eq!(plan_column(backend, kind.clone(), contiguous), ColumnPlan::ZeroCopyBorrow);
        }
    }
}

#[test]
fn a_tz_aware_column_keeps_its_zone_and_is_copied() {
    let facts = PandasDtypeFacts::DatetimeTz { unit: "ns".to_string(), tz: "America/New_York".to_string() };
    let (backend, kind, _) = classify(facts).unwrap();
    assert_eq!(kind, ArrowKind::Timestamp { tz: Some("America/New_York".to_string()) });
    assert_eq!(
        plan_column(backend, kind, true),
        ColumnPlan::RequiresCopy { reason: NUMPY_DATETIME_REASON.to_string() }
    );
}
