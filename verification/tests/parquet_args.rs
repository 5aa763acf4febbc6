use pydart::error::PydartError;
use pydart::parquet_args::{
    parse_filter_operator, parse_filter_value, select_directory_parquet_files, validate_path_list,
    DirectoryEntry, ListedPath, PythonFilterValue,
};
use pydart::parquet_filter::{Op, ScalarValue};

#[test]
fn the_six_operators_parse() {
    let cases = [("==", Op::Eq), ("!=", Op::Ne), ("<", Op::Lt), ("<=", Op::Le), (">", Op::Gt), (">=", Op::Ge)];
    for (text, op) in cases {
        assert_eq!(parse_filter_operator("c", text).unwrap(), op);
    }
}

#[test]
fn an_unknown_operator_names_column_and_operator() {
    match parse_filter_operator("price", "in") {
        Err(PydartError::UnsupportedFilterOperator { column, operator }) => {
            assert_eq!(column, "price");
            assert_eq!(operator, "in");
        }
        other => panic!("unexpected {other:?}"),
    }
}

fn entry(name: &str, is_file: bool, ext: bool) -> DirectoryEntry {
    DirectoryEntry { file_name: name.as_bytes().to_vec(), is_file, has_parquet_extension: ext }
}

#[test]
fn a_directory_yields_its_parquet_files_sorted_by_name() {
    let entries = [
        entry("part-2.parquet", true, true),
        entry("notes.txt", true, false),
        entry("part-10.parquet", true, true),
        entry("sub.parquet", false, true),
        entry("a.parquet", true, true),
    ];
    assert_eq!(select_directory_parquet_files("\"/d\"", &entries).unwrap(), vec![4, 2, 0]);
}

#[test]
fn a_directory_without_parquet_files_is_an_error() {
    let entries = [entry("notes.txt", true, false)];
    match select_directory_parquet_files("\"/data\"", &entries) {
        Err(PydartError::InvalidParquetPathArgument(m)) => {
            assert_eq!(m, "directory \"/data\" contains no .parquet files");
        }
        other => panic!("unexpected {other:?}"),
    }
}

fn listed(name: &str, is_dir: bool, exists: bool, ext: bool) -> ListedPath {
    ListedPath {
        display: name.to_string(),
        debug: format!("{name:?}"),
        is_dir,
        exists,
        has_parquet_extension: ext,
    }
}

#[test]
fn a_path_list_is_checked_in_order() {
    assert!(validate_path_list(&[listed("a.parquet", false, true, true)]).is_ok());
    match validate_path_list(&[]) {
        Err(PydartError::InvalidParquetPathArgument(m)) => assert_eq!(m, "from_parquet received an empty path list"),
        other => panic!("unexpected {other:?}"),
    }
    let paths = [listed("a.parquet", false, true, true), listed("dir", true, true, false), listed("gone.parquet", false, false, true)];
    match validate_path_list(&paths) {
        Err(PydartError::InvalidParquetPathArgument(m)) => assert_eq!(
            m,
            "from_parquet path list element \"dir\" is a directory; pass a directory as the sole path argument instead of inside a list"
        ),
        other => panic!("unexpected {other:?}"),
    }
    match validate_path_list(&[listed("gone.parquet", false, false, true)]) {
        Err(PydartError::ParquetReadError { path, reason }) => {
            assert_eq!(path, "gone.parquet");
            assert_eq!(reason, "no such file or directory");
        }
        other => panic!("unexpected {other:?}"),
    }
    match validate_path_list(&[listed("data.csv", false, true, false)]) {
        Err(PydartError::ParquetReadError { path, reason }) => {
            assert_eq!(path, "data.csv");
            assert_eq!(reason, "expected a .parquet file extension");
        }
        other => panic!("unexpected {other:?}"),
    }
}

#[test]
fn the_listing_order_of_a_directory_never_changes_the_files_read() {
    let names = |entries: &[DirectoryEntry]| -> Vec<Vec<u8>> {
        select_directory_parquet_files("\"/d\"", entries)
            .unwrap()
            .into_iter()
            .map(|i| entries[i].file_name.clone())
            .collect()
    };
    let one = [
        entry("b.parquet", true, true),
        entry("c.csv", true, false),
        entry("a.parquet", true, true),
        entry("c.parquet", true, true),
    ];
    let other = [
        entry("c.parquet", true, true),
        entry("a.parquet", true, true),
        entry("c.csv", true, false),
        entry("b.parquet", true, true),
    ];
    assert_eq!(names(&one), names(&other));
    assert_eq!(names(&one), vec![b"a.parquet".to_vec(), b"b.parquet".to_vec(), b"c.parquet".to_vec()]);
}

fn python_value(as_bool: Option<bool>, as_int: Option<i64>, as_float: Option<f64>, as_str: Option<&str>, class: &str) -> PythonFilterValue {
    PythonFilterValue {
        as_bool,
        as_int,
        as_float_bits: as_float.map(f64::to_bits),
        as_str: as_str.map(|s| s.to_string()),
        class_name: class.to_string(),
    }
}

#[test]
fn a_python_bool_is_a_bool_not_an_int() {
    // `True` also extracts as the int 1 and the float 1.0.
    let v = python_value(Some(true), Some(1), Some(1.0), None, "bool");
    assert_eq!(parse_filter_value(v).unwrap(), ScalarValue::Bool(true));
}

#[test]
fn ints_floats_and_strings_keep_their_own_type() {
    let int = python_value(None, Some(7), Some(7.0), None, "int");
    assert_eq!(parse_filter_value(int).unwrap(), ScalarValue::Int64(7));
    let float = python_value(None, None, Some(2.5), None, "float");
    assert_eq!(parse_filter_value(float).unwrap(), ScalarValue::Float64(2.5f64.to_bits()));
    let text = python_value(None, None, None, Some("x"), "str");
    assert_eq!(parse_filter_value(text).unwrap(), ScalarValue::Utf8("x".to_string()));
}

#[test]
fn any_other_filter_value_names_its_type() {
    match parse_filter_value(python_value(None, None, None, None, "list")) {
        Err(PydartError::Other(m)) => {
            assert_eq!(m, "unsupported filter value type \"list\": expected int, float, bool, or str")
        }
        other => panic!("unexpected {other:?}"),
    }
}
