use pydart::error::{ExceptionKind, PydartError};
use pydart::table::check_column_index;

#[test]
fn column_index_within_the_table_is_accepted() {
    assert!(check_column_index(0, 3).is_ok());
    assert!(check_column_index(2, 3).is_ok());
}

#[test]
fn column_index_past_the_last_column_names_both_numbers() {
    match check_column_index(3, 3) {
        Err(PydartError::Other(m)) => assert_eq!(m, "column index 3 out of range (table has 3 columns)"),
        other => panic!("expected an out-of-range error, got {other:?}"),
    }
    match check_column_index(12, 0) {
        Err(PydartError::Other(m)) => assert_eq!(m, "column index 12 out of range (table has 0 columns)"),
        other => panic!("expected an out-of-range error, got {other:?}"),
    }
}

#[test]
fn refused_input_is_raised_as_pydart_error() {
    let refused = [
        PydartError::UnsupportedColumn { column: "a".into(), dtype: "Int64".into(), reason: "r".into() },
        PydartError::UnsupportedCodec("lz4".into()),
        PydartError::UnsupportedFilterOperator { column: "a".into(), operator: "~=".into() },
        PydartError::ParquetSchemaMismatch { first_file: "a".into(), other_file: "b".into(), column: "c".into() },
        PydartError::InvalidParquetPathArgument("m".into()),
    ];
    for e in &refused {
        assert_eq!(e.exception_kind(), ExceptionKind::Pydart, "{e:?}");
    }
}

#[test]
fn wrapped_failures_are_value_errors_and_stubs_not_implemented() {
    assert_eq!(
        PydartError::ParquetReadError { path: "p".into(), reason: "r".into() }.exception_kind(),
        ExceptionKind::Value
    );
    assert_eq!(PydartError::Other("x".into()).exception_kind(), ExceptionKind::Value);
    assert_eq!(
        PydartError::Arrow(arrow::error::ArrowError::ComputeError("x".into())).exception_kind(),
        ExceptionKind::Value
    );
    assert_eq!(PydartError::NotImplemented("x".into()).exception_kind(), ExceptionKind::NotImplemented);
}

#[test]
fn error_messages_name_what_failed() {
    let cases: [(PydartError, &str); 8] = [
        (PydartError::NotImplemented("to_json".into()), "to_json is not yet implemented"),
        (
            PydartError::UnsupportedColumn { column: "a".into(), dtype: "Int64".into(), reason: "masked".into() },
            "column \"a\" (dtype=Int64) is not supported: masked",
        ),
        (
            PydartError::UnsupportedCodec("lz4".into()),
            "unsupported compression codec \"lz4\": expected one of \"snappy\", \"zstd\", \"gzip\", \"uncompressed\"",
        ),
        (
            PydartError::UnsupportedFilterOperator { column: "p".into(), operator: "in".into() },
            "unsupported filter operator \"in\" on column \"p\": expected one of \"==\", \"!=\", \"<\", \"<=\", \">\", \">=\"",
        ),
        (
            PydartError::ParquetSchemaMismatch { first_file: "a.parquet".into(), other_file: "b.parquet".into(), column: "x".into() },
            "schema mismatch across Parquet files: \"a.parquet\" and \"b.parquet\" disagree on column \"x\"",
        ),
        (
            PydartError::ParquetReadError { path: "gone.parquet".into(), reason: "no such file or directory".into() },
            "failed to read Parquet file \"gone.parquet\": no such file or directory",
        ),
        (PydartError::InvalidParquetPathArgument("empty".into()), "empty"),
        (PydartError::Other("boom".into()), "boom"),
    ];
    for (e, expected) in cases {
        assert_eq!(e.message(), expected);
    }
    let arrow = PydartError::Arrow(arrow::error::ArrowError::ComputeError("bad".into()));
    assert_eq!(arrow.message(), "arrow error: Compute error: bad");
}
