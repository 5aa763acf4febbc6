use parquet::errors::ParquetError;
use parquet::basic::{Compression, GzipLevel, ZstdLevel};
use parquet::schema::types::ColumnPath;

use pydart::error::PydartError;
use pydart::parquet_filter::{FilterExpr, Op, ScalarValue};
use pydart::parquet_io::{
    build_writer_properties, check_schema_agreement, field_position, first_schema_mismatch, parse_codec, projection_indices,
    scalar_from_statistic, select_row_groups, writer_properties_for_table, Codec, FieldSummary,
    MultiParquetReadError, RowGroupBounds, StatisticsValue,
};

fn field(name: &str, data_type: usize, nullable: bool) -> FieldSummary {
    FieldSummary { name: name.to_string(), data_type, nullable }
}

#[test]
fn the_four_codecs_build_writer_properties() {
    let column = ColumnPath::from("x");
    let zstd = build_writer_properties("zstd", 100).unwrap();
    assert_eq!(zstd.compression(&column), Compression::ZSTD(ZstdLevel::default()));
    assert_eq!(zstd.max_row_group_row_count(), Some(100));
    let gzip = build_writer_properties("gzip", 7).unwrap();
    assert_eq!(gzip.compression(&column), Compression::GZIP(GzipLevel::default()));
    assert_eq!(build_writer_properties("snappy", 1).unwrap().compression(&column), Compression::SNAPPY);
    assert_eq!(
        build_writer_properties("uncompressed", 1).unwrap().compression(&column),
        Compression::UNCOMPRESSED
    );
    assert_eq!(parse_codec("zstd"), Some(Codec::Zstd));
    assert_eq!(parse_codec("ZSTD"), None);
}

#[test]
fn an_unknown_codec_is_an_error_not_a_default() {
    let err = build_writer_properties("lz4", 100).unwrap_err();
    assert_eq!(err.to_string(), "Parquet error: unsupported compression codec \"lz4\"");
}

#[test]
fn table_writer_options_reject_zero_rows_then_unknown_codecs() {
    match writer_properties_for_table("lz4", 0) {
        Err(PydartError::Other(m)) => assert_eq!(m, "row_group_size must be greater than 0"),
        other => panic!("unexpected {other:?}"),
    }
    match writer_properties_for_table("lz4", 10) {
        Err(PydartError::UnsupportedCodec(c)) => assert_eq!(c, "lz4"),
        other => panic!("unexpected {other:?}"),
    }
    let props = writer_properties_for_table("snappy", 1_048_576).unwrap();
    assert_eq!(props.max_row_group_row_count(), Some(1_048_576));
}

#[test]
fn schemas_must_agree_field_by_field() {
    let a = [field("x", 0, true), field("y", 1, false)];
    assert_eq!(first_schema_mismatch(&a, &a), None);
    let renamed = [field("x", 0, true), field("z", 1, false)];
    assert_eq!(first_schema_mismatch(&a, &renamed), Some("y".to_string()));
    let retyped = [field("x", 2, true), field("y", 1, false)];
    assert_eq!(first_schema_mismatch(&a, &retyped), Some("x".to_string()));
    let nullable = [field("x", 0, true), field("y", 1, true)];
    assert_eq!(first_schema_mismatch(&a, &nullable), Some("y".to_string()));
    let longer = [field("x", 0, true), field("y", 1, false), field("w", 0, true)];
    assert_eq!(first_schema_mismatch(&a, &longer), Some("w".to_string()));
    assert_eq!(first_schema_mismatch(&longer, &a), Some("w".to_string()));
}

#[test]
fn a_schema_mismatch_names_both_files_and_the_column() {
    let a = [field("x", 0, true)];
    let b = [field("x", 1, true)];
    assert!(check_schema_agreement("a.parquet", &a, "a.parquet", &a).is_ok());
    let err = check_schema_agreement("a.parquet", &a, "b.parquet", &b).unwrap_err();
    match err.into_pydart_error() {
        PydartError::ParquetSchemaMismatch { first_file, other_file, column } => {
            assert_eq!(first_file, "a.parquet");
            assert_eq!(other_file, "b.parquet");
            assert_eq!(column, "x");
        }
        other => panic!("unexpected {other:?}"),
    }
}

#[test]
fn a_read_failure_names_the_file() {
    let err = MultiParquetReadError::Read {
        path: "gone.parquet".to_string(),
        source: parquet::errors::ParquetError::General("boom".to_string()),
    };
    match err.into_pydart_error() {
        PydartError::ParquetReadError { path, reason } => {
            assert_eq!(path, "gone.parquet");
            assert_eq!(reason, "Parquet error: boom");
        }
        other => panic!("unexpected {other:?}"),
    }
}

fn bounds(min: i64, max: i64) -> RowGroupBounds {
    RowGroupBounds { min: Some(ScalarValue::Int64(min)), max: Some(ScalarValue::Int64(max)) }
}

#[test]
fn row_groups_survive_only_every_filter() {
    let filters = vec![
        FilterExpr { column: "x".to_string(), op: Op::Ge, value: ScalarValue::Int64(100) },
        FilterExpr { column: "x".to_string(), op: Op::Lt, value: ScalarValue::Int64(200) },
    ];
    let per_group = vec![bounds(0, 99), bounds(100, 199), bounds(200, 299), RowGroupBounds { min: None, max: None }];
    let all = vec![per_group.clone(), per_group];
    assert_eq!(select_row_groups(4, &filters, &all), vec![1, 3]);
    assert_eq!(select_row_groups(4, &[], &[]), vec![0, 1, 2, 3]);
}

#[test]
fn statistics_values_become_filter_scalars() {
    assert_eq!(scalar_from_statistic(StatisticsValue::Int8(-3)), Some(ScalarValue::Int64(-3)));
    assert_eq!(scalar_from_statistic(StatisticsValue::UInt32(u32::MAX)), Some(ScalarValue::Int64(u32::MAX as i64)));
    assert_eq!(
        scalar_from_statistic(StatisticsValue::Float32Bits(1.5f32.to_bits())),
        Some(ScalarValue::Float64(1.5f64.to_bits()))
    );
    assert_eq!(scalar_from_statistic(StatisticsValue::Boolean(true)), Some(ScalarValue::Bool(true)));
    assert_eq!(scalar_from_statistic(StatisticsValue::Null), None);
    assert_eq!(scalar_from_statistic(StatisticsValue::Unsupported), None);
}

#[test]
fn requested_columns_are_found_in_the_requested_order() {
    let fields: Vec<String> = ["a", "b", "c", "b"].iter().map(|s| s.to_string()).collect();
    let cols: Vec<String> = ["c", "b", "a"].iter().map(|s| s.to_string()).collect();
    assert_eq!(projection_indices(&fields, &cols), Ok(vec![2, 1, 0]));
    assert_eq!(field_position(&fields, "b"), Some(1));
    assert_eq!(field_position(&fields, "z"), None);
    let missing: Vec<String> = ["a", "z", "y"].iter().map(|s| s.to_string()).collect();
    assert_eq!(projection_indices(&fields, &missing), Err(1));
}

#[test]
fn read_errors_carry_parquet_own_text() {
    let cases = [
        (ParquetError::EOF("truncated footer".to_string()), "EOF: truncated footer"),
        (ParquetError::NYI("encoding".to_string()), "NYI: encoding"),
        (ParquetError::IndexOutOfBound(3, 2), "Index 3 out of bound: 2"),
        (ParquetError::ArrowError("cast".to_string()), "Arrow: cast"),
    ];
    for (source, expected) in cases {
        let err = MultiParquetReadError::Read { path: "f.parquet".to_string(), source };
        match err.into_pydart_error() {
            PydartError::ParquetReadError { reason, .. } => assert_eq!(reason, expected),
            other => panic!("unexpected {other:?}"),
        }
    }
}
