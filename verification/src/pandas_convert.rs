//! The per-column steps of a pandas DataFrame conversion.
//!
//! For each column, `from_pandas` classifies the dtype (`crate::dtype`), reads the numpy
//! buffer's contiguity when the column is numpy-backed, plans the column
//! (`crate::pandas_plan`), and then follows the steps decided here: validate the contents of
//! a numpy object column, borrow a contiguous numpy numeric buffer directly or import the
//! column through pandas' Arrow stream export, and read the categorical `ordered` flag.

use vstd::prelude::*;
use crate::pandas_plan::{ArrowKind, ColumnPlan, DtypeBackend, plan_column, spec_plan};
use crate::error::PydartError;
use crate::format::{debug_quote, debug_quoted, decimal, push_decimal};
use crate::text::str_equals;

verus! {

/// How a column's data becomes an Arrow array.
#[derive(Debug, Clone, Copy, PartialEq, Eq)]
pub enum ConversionRoute {
    /// Wrap the contiguous numpy buffer in an Arrow buffer, no copy.
    BorrowNumpyBuffer,
    /// Import the single-column frame through its `__arrow_c_stream__` export.
    PandasStream,
}

/// What `from_pandas` does for one column.
#[derive(Debug, Clone)]
pub struct ColumnSteps {
    /// The copy-vs-borrow plan, recorded for strict mode and the copy report.
    pub plan: ColumnPlan,
    /// Validate a numpy object column's values before converting it.
    pub validate_object_contents: bool,
    /// How the data is converted.
    pub route: ConversionRoute,
    /// Read the pandas dtype's `ordered` flag for the dictionary field.
    pub read_ordered_flag: bool,
}

/// Whether the numpy buffer's contiguity is read: only numpy-backed columns have one.
pub fn reads_contiguity(backend: DtypeBackend) -> (r: bool)
    ensures
        r == (backend is Numpy),
{
    match backend {
        DtypeBackend::Numpy => true,
        _ => false,
    }
}

/// The steps for a column of the given backend and kind; `is_contiguous` is the numpy
/// buffer's C-contiguity (irrelevant, and passed as `true`, for other backends).
pub fn column_steps(backend: DtypeBackend, kind: ArrowKind, is_contiguous: bool) -> (steps: ColumnSteps)
    ensures
        steps.plan.spec_reason() == spec_plan(backend, kind, is_contiguous),
        steps.validate_object_contents == (backend is Numpy && kind is String),
        (steps.route is BorrowNumpyBuffer) <==> (steps.plan is ZeroCopyBorrow && backend is Numpy && kind is Numeric),
        steps.read_ordered_flag == (backend is Categorical),
{
    let validate_object_contents = match (backend, &kind) {
        (DtypeBackend::Numpy, ArrowKind::String) => true,
        _ => false,
    };
    let numpy_numeric = match (backend, &kind) {
        (DtypeBackend::Numpy, ArrowKind::Numeric) => true,
        _ => false,
    };
    let read_ordered_flag = match backend {
        DtypeBackend::Categorical => true,
        _ => false,
    };
    let plan = plan_column(backend, kind, is_contiguous);
    let route = match plan {
        ColumnPlan::ZeroCopyBorrow if numpy_numeric => ConversionRoute::BorrowNumpyBuffer,
        _ => ConversionRoute::PandasStream,
    };
    ColumnSteps { plan, validate_object_contents, route, read_ordered_flag }
}

/// What a column's Arrow field records besides its name and data type.
#[derive(Debug, Clone, Copy, PartialEq, Eq)]
pub struct FieldFlags {
    /// The field's nullability.
    pub nullable: bool,
    /// For a dictionary field, its `dict_is_ordered` flag; `None` for any other field.
    pub dictionary_ordered: Option<bool>,
}

/// The field flags of a converted column. A borrowed numpy buffer cannot hold nulls; a
/// column imported through the stream keeps the nullability its export declared (never one
/// guessed from the current null count). A dictionary field carries the pandas dtype's
/// `ordered` flag (`false` when there is none).
pub fn field_flags(route: ConversionRoute, stream_nullable: bool, is_dictionary: bool, pandas_ordered: Option<bool>) -> (f: FieldFlags)
    ensures
        f.nullable == (route is PandasStream && stream_nullable),
        f.dictionary_ordered == if is_dictionary {
            Some(pandas_ordered == Some(true))
        } else {
            None
        },
{
    let nullable = match route {
        ConversionRoute::BorrowNumpyBuffer => false,
        ConversionRoute::PandasStream => stream_nullable,
    };
    let dictionary_ordered = if is_dictionary {
        Some(match pandas_ordered {
            Some(o) => o,
            None => false,
        })
    } else {
        None
    };
    FieldFlags { nullable, dictionary_ordered }
}

/// What the validation reads of one value of a numpy object column.
#[derive(Debug, Clone)]
pub enum ObjectCell {
    /// `None`.
    Missing,
    /// A float NaN.
    NotANumber,
    /// A `str`.
    Text,
    /// Any other value, with the `__name__` of its type.
    Other { class_name: String },
}

/// Why an object column holding a non-`str` value at `row` is rejected.
pub open spec fn non_string_reason(class_name: Seq<char>, row: nat) -> Seq<char> {
    "non-string value of type "@ + debug_quoted(class_name) + " found at row "@ + decimal(row)
        + "; object-dtype columns must contain only str values (and None/NaN) -- Flint does not rely on pyarrow's own type inference for this, which would silently accept dict-valued or int-valued object columns instead of rejecting them"@
}

/// The row of the first value that is neither missing, NaN, nor a `str`.
pub open spec fn first_non_string(cells: Seq<ObjectCell>) -> Option<int>
    decreases cells.len(),
{
    if cells.len() == 0 {
        None
    } else if cells[0] is Other {
        Some(0)
    } else {
        match first_non_string(cells.drop_first()) {
            Some(i) => Some(i + 1),
            None => None,
        }
    }
}

proof fn lemma_first_non_string(cells: Seq<ObjectCell>)
    ensures
        match first_non_string(cells) {
            Some(i) => 0 <= i < cells.len() && cells[i] is Other
                && forall|j: int| 0 <= j < i ==> !(cells[j] is Other),
            None => forall|j: int| 0 <= j < cells.len() ==> !(cells[j] is Other),
        },
    decreases cells.len(),
{
    if cells.len() > 0 {
        lemma_first_non_string(cells.drop_first());
        if !(cells[0] is Other) {
            assert forall|j: int| 1 <= j < cells.len() implies cells[j] == cells.drop_first()[j - 1] by {}
        }
    }
}

/// Validate a numpy object column's values: `None` and NaN are missing values, `str` is
/// accepted, and the first value of any other type rejects the column, naming the column,
/// the dtype "object", the value's type and its row.
pub fn validate_object_column_contents(cells: &[ObjectCell], column_name: &str) -> (r: Result<(), PydartError>)
    ensures
        match (r, first_non_string(cells@)) {
            (Ok(()), None) => true,
            (Err(e), Some(i)) => cells@[i] matches ObjectCell::Other { class_name }
                && e matches PydartError::UnsupportedColumn { column, dtype, reason }
                && column@ == column_name@ && dtype@ == "object"@
                && reason@ == non_string_reason(class_name@, i as nat),
            _ => false,
        },
{
    proof {
        lemma_first_non_string(cells@);
    }
    let mut i: usize = 0;
    while i < cells.len()
        invariant
            i <= cells@.len(),
            forall|j: int| 0 <= j < i ==> !(cells@[j] is Other),
            match first_non_string(cells@) {
                Some(k) => 0 <= k < cells@.len() && cells@[k] is Other
                    && forall|j: int| 0 <= j < k ==> !(cells@[j] is Other),
                None => forall|j: int| 0 <= j < cells@.len() ==> !(cells@[j] is Other),
            },
        decreases cells.len() - i,
    {
        if let ObjectCell::Other { class_name } = &cells[i] {
            let mut reason = String::from_str("non-string value of type ");
            let quoted = debug_quote(class_name.as_str());
            reason.append(quoted.as_str());
            reason.append(" found at row ");
            push_decimal(&mut reason, i);
            reason.append("; object-dtype columns must contain only str values (and None/NaN) -- Flint does not rely on pyarrow's own type inference for this, which would silently accept dict-valued or int-valued object columns instead of rejecting them");
            let e = PydartError::UnsupportedColumn {
                column: column_name.to_owned(),
                dtype: String::from_str("object"),
                reason,
            };
            return Err(e);
        }
        i = i + 1;
    }
    Ok(())
}

/// The numpy numeric dtypes whose buffers can be borrowed directly.
#[derive(Debug, Clone, Copy, PartialEq, Eq)]
pub enum NumpyNumericType {
    Int8,
    Int16,
    Int32,
    Int64,
    UInt8,
    UInt16,
    UInt32,
    UInt64,
    Float32,
    Float64,
}

/// The numeric type named by a numpy dtype's `name`.
pub open spec fn numpy_numeric_type_named(name: Seq<char>) -> Option<NumpyNumericType> {
    if name == "int8"@ {
        Some(NumpyNumericType::Int8)
    } else if name == "int16"@ {
        Some(NumpyNumericType::Int16)
    } else if name == "int32"@ {
        Some(NumpyNumericType::Int32)
    } else if name == "int64"@ {
        Some(NumpyNumericType::Int64)
    } else if name == "uint8"@ {
        Some(NumpyNumericType::UInt8)
    } else if name == "uint16"@ {
        Some(NumpyNumericType::UInt16)
    } else if name == "uint32"@ {
        Some(NumpyNumericType::UInt32)
    } else if name == "uint64"@ {
        Some(NumpyNumericType::UInt64)
    } else if name == "float32"@ {
        Some(NumpyNumericType::Float32)
    } else if name == "float64"@ {
        Some(NumpyNumericType::Float64)
    } else {
        None
    }
}

/// Look up a numpy dtype name among the borrowable numeric types.
pub fn numpy_numeric_type(name: &str) -> (t: Option<NumpyNumericType>)
    ensures
        t == numpy_numeric_type_named(name@),
{
    if str_equals(name, "int8") {
        Some(NumpyNumericType::Int8)
    } else if str_equals(name, "int16") {
        Some(NumpyNumericType::Int16)
    } else if str_equals(name, "int32") {
        Some(NumpyNumericType::Int32)
    } else if str_equals(name, "int64") {
        Some(NumpyNumericType::Int64)
    } else if str_equals(name, "uint8") {
        Some(NumpyNumericType::UInt8)
    } else if str_equals(name, "uint16") {
        Some(NumpyNumericType::UInt16)
    } else if str_equals(name, "uint32") {
        Some(NumpyNumericType::UInt32)
    } else if str_equals(name, "uint64") {
        Some(NumpyNumericType::UInt64)
    } else if str_equals(name, "float32") {
        Some(NumpyNumericType::Float32)
    } else if str_equals(name, "float64") {
        Some(NumpyNumericType::Float64)
    } else {
        None
    }
}


/// The numpy dtype name (`dtype.name`) of each borrowable numeric type.
pub open spec fn numpy_dtype_name(t: NumpyNumericType) -> Seq<char> {
    match t {
        NumpyNumericType::Int8 => "int8"@,
        NumpyNumericType::Int16 => "int16"@,
        NumpyNumericType::Int32 => "int32"@,
        NumpyNumericType::Int64 => "int64"@,
        NumpyNumericType::UInt8 => "uint8"@,
        NumpyNumericType::UInt16 => "uint16"@,
        NumpyNumericType::UInt32 => "uint32"@,
        NumpyNumericType::UInt64 => "uint64"@,
        NumpyNumericType::Float32 => "float32"@,
        NumpyNumericType::Float64 => "float64"@,
    }
}

/// Every one of the ten borrowable numeric numpy dtypes is recognised by its name, as the
/// type of that name, and no other name is recognised.
pub proof fn numpy_numeric_names_are_recognised(t: NumpyNumericType, name: Seq<char>)
    ensures
        numpy_numeric_type_named(numpy_dtype_name(t)) == Some(t),
        numpy_numeric_type_named(name) == Some(t) ==> name == numpy_dtype_name(t),
{
    reveal_strlit("int8");
    reveal_strlit("int16");
    reveal_strlit("int32");
    reveal_strlit("int64");
    reveal_strlit("uint8");
    reveal_strlit("uint16");
    reveal_strlit("uint32");
    reveal_strlit("uint64");
    reveal_strlit("float32");
    reveal_strlit("float64");
    match t {
        NumpyNumericType::Int8 => {

        },
        NumpyNumericType::Int16 => {
            assert("int16"@.len() != "int8"@.len());
        },
        NumpyNumericType::Int32 => {
            assert("int32"@.len() != "int8"@.len());
            assert("int32"@[3] != "int16"@[3]);
        },
        NumpyNumericType::Int64 => {
            assert("int64"@.len() != "int8"@.len());
            assert("int64"@[3] != "int16"@[3]);
            assert("int64"@[3] != "int32"@[3]);
        },
        NumpyNumericType::UInt8 => {
            assert("uint8"@.len() != "int8"@.len());
            assert("uint8"@[0] != "int16"@[0]);
            assert("uint8"@[0] != "int32"@[0]);
            assert("uint8"@[0] != "int64"@[0]);
        },
        NumpyNumericType::UInt16 => {
            assert("uint16"@.len() != "int8"@.len());
            assert("uint16"@.len() != "int16"@.len());
            assert("uint16"@.len() != "int32"@.len());
            assert("uint16"@.len() != "int64"@.len());
            assert("uint16"@.len() != "uint8"@.len());
        },
        NumpyNumericType::UInt32 => {
            assert("uint32"@.len() != "int8"@.len());
            assert("uint32"@.len() != "int16"@.len());
            assert("uint32"@.len() != "int32"@.len());
            assert("uint32"@.len() != "int64"@.len());
            assert("uint32"@.len() != "uint8"@.len());
            assert("uint32"@[4] != "uint16"@[4]);
        },
        NumpyNumericType::UInt64 => {
            assert("uint64"@.len() != "int8"@.len());
            assert("uint64"@.len() != "int16"@.len());
            assert("uint64"@.len() != "int32"@.len());
            assert("uint64"@.len() != "int64"@.len());
            assert("uint64"@.len() != "uint8"@.len());
            assert("uint64"@[4] != "uint16"@[4]);
            assert("uint64"@[4] != "uint32"@[4]);
        },
        NumpyNumericType::Float32 => {
            assert("float32"@.len() != "int8"@.len());
            assert("float32"@.len() != "int16"@.len());
            assert("float32"@.len() != "int32"@.len());
            assert("float32"@.len() != "int64"@.len());
            assert("float32"@.len() != "uint8"@.len());
            assert("float32"@.len() != "uint16"@.len());
            assert("float32"@.len() != "uint32"@.len());
            assert("float32"@.len() != "uint64"@.len());
        },
        NumpyNumericType::Float64 => {
            assert("float64"@.len() != "int8"@.len());
            assert("float64"@.len() != "int16"@.len());
            assert("float64"@.len() != "int32"@.len());
            assert("float64"@.len() != "int64"@.len());
            assert("float64"@.len() != "uint8"@.len());
            assert("float64"@.len() != "uint16"@.len());
            assert("float64"@.len() != "uint32"@.len());
            assert("float64"@.len() != "uint64"@.len());
            assert("float64"@[5] != "float32"@[5]);
        },
    }
}

} // verus!
