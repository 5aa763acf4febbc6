use std::sync::Arc;

use arrow::array::Int64Array;
use arrow::datatypes::{DataType, Field, Schema};
use arrow::record_batch::RecordBatch;
use parquet::arrow::ArrowWriter;
use parquet::file::metadata::ParquetMetaData;
use parquet::file::properties::{EnabledStatistics, WriterProperties};
use parquet::schema::types::ColumnPath;

use pydart::parquet_filter::{FilterExpr, Op, ScalarValue};
use pydart::parquet_io::surviving_row_groups;

/// A 300-row, two-column ("x", "y") Parquet file written with `row_group_size=100`: three row
/// groups with disjoint ranges [0,99], [100,199], [200,299] on "x"; column "y" has its row
/// group statistics disabled. Returns the written file's Arrow schema and metadata.
fn write_three_row_group_fixture() -> (Arc<Schema>, ParquetMetaData) {
    let schema = Arc::new(Schema::new(vec![
        Field::new("x", DataType::Int64, false),
        Field::new("y", DataType::Int64, false),
    ]));
    let x_values: Vec<i64> = (0..300).collect();
    let y_values: Vec<i64> = (0..300).map(|i| i * 7).collect();
    let batch = RecordBatch::try_new(
        schema.clone(),
        vec![
            Arc::new(Int64Array::from(x_values)),
            Arc::new(Int64Array::from(y_values)),
        ],
    )
    .expect("build fixture batch");

    let properties = WriterProperties::builder()
        .set_max_row_group_row_count(Some(100))
        .set_column_statistics_enabled(ColumnPath::from("y"), EnabledStatistics::None)
        .build();

    let mut bytes: Vec<u8> = Vec::new();
    let mut writer =
        ArrowWriter::try_new(&mut bytes, schema.clone(), Some(properties)).expect("create ArrowWriter");
    writer.write(&batch).expect("write fixture batch");
    let metadata = writer.close().expect("close writer");
    (schema, metadata)
}

fn surviving_with(filters: &[FilterExpr]) -> Result<Vec<usize>, parquet::errors::ParquetError> {
    let (arrow_schema, metadata) = write_three_row_group_fixture();
    let parquet_schema = metadata.file_metadata().schema_descr();
    surviving_row_groups(&metadata, &arrow_schema, parquet_schema, filters)
}

fn surviving_for(column: &str, op: Op, value: ScalarValue) -> Vec<usize> {
    let filters = vec![FilterExpr {
        column: column.to_string(),
        op,
        value,
    }];
    surviving_with(&filters).expect("surviving_row_groups")
}

#[test]
fn col_gt_250_keeps_only_last_row_group() {
    let surviving = surviving_for("x", Op::Gt, ScalarValue::Int64(250));
    assert_eq!(surviving, vec![2]);
}

#[test]
fn col_lt_50_keeps_only_first_row_group() {
    let surviving = surviving_for("x", Op::Lt, ScalarValue::Int64(50));
    assert_eq!(surviving, vec![0]);
}

#[test]
fn col_ge_100_and_lt_200_keeps_only_middle_row_group() {
    let filters = vec![
        FilterExpr {
            column: "x".to_string(),
            op: Op::Ge,
            value: ScalarValue::Int64(100),
        },
        FilterExpr {
            column: "x".to_string(),
            op: Op::Lt,
            value: ScalarValue::Int64(200),
        },
    ];
    let surviving = surviving_with(&filters).expect("surviving_row_groups");
    assert_eq!(surviving, vec![1]);
}

#[test]
fn col_eq_1000_keeps_no_row_group() {
    let surviving = surviving_for("x", Op::Eq, ScalarValue::Int64(1000));
    assert!(surviving.is_empty());
}

#[test]
fn filter_on_stats_less_column_keeps_all_row_groups() {
    let surviving = surviving_for("y", Op::Gt, ScalarValue::Int64(999_999));
    assert_eq!(surviving, vec![0, 1, 2]);
}

#[test]
fn unknown_filter_column_is_a_statistics_error() {
    let filters = vec![FilterExpr {
        column: "nope".to_string(),
        op: Op::Eq,
        value: ScalarValue::Int64(1),
    }];
    assert!(surviving_with(&filters).is_err());
}

#[test]
fn float_literal_prunes_int_statistics_by_widening() {
    let surviving = surviving_for("x", Op::Le, ScalarValue::Float64(99.5f64.to_bits()));
    assert_eq!(surviving, vec![0]);
}

#[test]
fn no_filters_keep_every_row_group() {
    assert_eq!(surviving_with(&[]).expect("surviving_row_groups"), vec![0, 1, 2]);
}

#[test]
fn anded_filter_lists_keep_the_row_groups_both_keep() {
    let f = |op: Op, v: i64| FilterExpr { column: "x".to_string(), op, value: ScalarValue::Int64(v) };
    let first = vec![f(Op::Gt, 50)];
    let second = vec![f(Op::Lt, 250)];
    let both: Vec<FilterExpr> = first.iter().chain(second.iter()).cloned().collect();
    let kept_first = surviving_with(&first).unwrap();
    let kept_second = surviving_with(&second).unwrap();
    let expected: Vec<usize> = kept_first.iter().copied().filter(|g| kept_second.contains(g)).collect();
    assert_eq!(surviving_with(&both).unwrap(), expected);
    let reversed: Vec<FilterExpr> = second.iter().chain(first.iter()).cloned().collect();
    assert_eq!(surviving_with(&reversed).unwrap(), expected);
}
