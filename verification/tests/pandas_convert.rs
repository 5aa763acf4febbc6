use pydart::error::PydartError;
use pydart::pandas_convert::{
    column_steps, field_flags, numpy_numeric_type, reads_contiguity, validate_object_column_contents,
    ConversionRoute, FieldFlags, NumpyNumericType, ObjectCell,
};
use pydart::pandas_plan::{ArrowKind, ColumnPlan, DtypeBackend};

#[test]
fn contiguous_numpy_numerics_are_borrowed_directly() {
    let steps = column_steps(DtypeBackend::Numpy, ArrowKind::Numeric, true);
    assert_eq!(steps.plan, ColumnPlan::ZeroCopyBorrow);
    assert_eq!(steps.route, ConversionRoute::BorrowNumpyBuffer);
    assert!(!steps.validate_object_contents);
    assert!(!steps.read_ordered_flag);
    let strided = column_steps(DtypeBackend::Numpy, ArrowKind::Numeric, false);
    assert_eq!(strided.route, ConversionRoute::PandasStream);
    assert!(matches!(strided.plan, ColumnPlan::RequiresCopy { .. }));
}

#[test]
fn other_columns_go_through_the_pandas_stream() {
    let arrow = column_steps(DtypeBackend::Arrow, ArrowKind::Numeric, true);
    assert_eq!(arrow.route, ConversionRoute::PandasStream);
    assert_eq!(arrow.plan, ColumnPlan::ZeroCopyBorrow);
    let object = column_steps(DtypeBackend::Numpy, ArrowKind::String, true);
    assert!(object.validate_object_contents);
    assert_eq!(object.route, ConversionRoute::PandasStream);
    let categorical = column_steps(DtypeBackend::Categorical, ArrowKind::Categorical, true);
    assert!(categorical.read_ordered_flag);
    assert!(reads_contiguity(DtypeBackend::Numpy));
    assert!(!reads_contiguity(DtypeBackend::Arrow));
    assert!(!reads_contiguity(DtypeBackend::Categorical));
}

#[test]
fn object_column_of_strings_and_missing_values_is_accepted() {
    let cells = [ObjectCell::Text, ObjectCell::Missing, ObjectCell::NotANumber, ObjectCell::Text];
    assert!(validate_object_column_contents(&cells, "names").is_ok());
    assert!(validate_object_column_contents(&[], "names").is_ok());
}

#[test]
fn object_column_with_a_non_string_is_rejected_at_its_row() {
    let cells = [
        ObjectCell::Text,
        ObjectCell::Missing,
        ObjectCell::Other { class_name: "dict".to_string() },
        ObjectCell::Other { class_name: "int".to_string() },
    ];
    match validate_object_column_contents(&cells, "names") {
        Err(PydartError::UnsupportedColumn { column, dtype, reason }) => {
            assert_eq!(column, "names");
            assert_eq!(dtype, "object");
            assert_eq!(
                reason,
                "non-string value of type \"dict\" found at row 2; object-dtype columns must contain only str values (and None/NaN) -- Flint does not rely on pyarrow's own type inference for this, which would silently accept dict-valued or int-valued object columns instead of rejecting them"
            );
        }
        other => panic!("expected an unsupported column, got {other:?}"),
    }
}

#[test]
fn numpy_numeric_dtype_names() {
    assert_eq!(numpy_numeric_type("int8"), Some(NumpyNumericType::Int8));
    assert_eq!(numpy_numeric_type("uint64"), Some(NumpyNumericType::UInt64));
    assert_eq!(numpy_numeric_type("float32"), Some(NumpyNumericType::Float32));
    assert_eq!(numpy_numeric_type("float16"), None);
    assert_eq!(numpy_numeric_type("bool"), None);
}

#[test]
fn field_flags_follow_the_route_and_the_dictionary() {
    let borrowed = field_flags(ConversionRoute::BorrowNumpyBuffer, true, false, None);
    assert_eq!(borrowed, FieldFlags { nullable: false, dictionary_ordered: None });
    let streamed = field_flags(ConversionRoute::PandasStream, true, false, None);
    assert_eq!(streamed, FieldFlags { nullable: true, dictionary_ordered: None });
    let ordered = field_flags(ConversionRoute::PandasStream, false, true, Some(true));
    assert_eq!(ordered, FieldFlags { nullable: false, dictionary_ordered: Some(true) });
    let no_flag = field_flags(ConversionRoute::PandasStream, true, true, None);
    assert_eq!(no_flag, FieldFlags { nullable: true, dictionary_ordered: Some(false) });
}
