//! Classification of a pandas column's dtype into a `(DtypeBackend, ArrowKind)` pair.
//!
//! The Python bindings read, from the live pandas dtype, exactly the facts this
//! classification depends on (which pandas dtype class it is an instance of, the pyarrow
//! type predicates, the temporal unit and time zone, the numpy `kind`), and hand them over
//! as a `PandasDtypeFacts`. The dispatch order below is load-bearing:
//!
//! 1. `pandas.ArrowDtype` -> `DtypeBackend::Arrow`, sub-classified by the pyarrow predicates;
//! 2. `pandas.CategoricalDtype` -> `(Categorical, Categorical)`;
//! 3. `pandas.DatetimeTZDtype` -> `(Numpy, Timestamp { tz: Some(..) })`, nanoseconds only;
//! 4. any other `ExtensionDtype` (masked `Int64`/`boolean`/`Float64`, ...) -> rejected;
//! 5. a plain numpy dtype -> by `kind`: `b`, `i`/`u`/`f`, `O`, `M`/`m` (nanoseconds only).

use vstd::prelude::*;
use crate::pandas_plan::{ArrowKind, DtypeBackend, spec_plan, NUMPY_DATETIME_REASON};
use crate::error::PydartError;
use crate::format::{debug_quote, debug_quoted};
use crate::text::str_equals;

verus! {

/// What the classification reads of the pyarrow `DataType` of a `pandas.ArrowDtype`.
#[derive(Debug, Clone)]
pub struct PyArrowTypeFacts {
    pub is_integer: bool,
    pub is_floating: bool,
    pub is_boolean: bool,
    pub is_string: bool,
    pub is_large_string: bool,
    /// `Some((unit, tz))` exactly when `pyarrow.types.is_timestamp` holds.
    pub timestamp: Option<(String, Option<String>)>,
    /// `Some(unit)` exactly when `pyarrow.types.is_duration` holds.
    pub duration: Option<String>,
}

/// What the classification reads of a pandas column's dtype.
#[derive(Debug, Clone)]
pub enum PandasDtypeFacts {
    /// An instance of `pandas.ArrowDtype`.
    ArrowDtype(PyArrowTypeFacts),
    /// An instance of `pandas.CategoricalDtype`.
    Categorical,
    /// An instance of `pandas.DatetimeTZDtype`: its `unit` and `str(tz)`.
    DatetimeTz { unit: String, tz: String },
    /// An instance of any other `pandas.api.extensions.ExtensionDtype`: its type's name.
    OtherExtension { class_name: String },
    /// A plain numpy dtype: its `kind`, and for kinds `M`/`m` the unit of
    /// `numpy.datetime_data(dtype)`.
    Numpy { kind: String, datetime_unit: Option<String> },
}

impl PandasDtypeFacts {
    /// The temporal unit is present for exactly the numpy kinds that have one.
    pub open spec fn well_formed(&self) -> bool {
        match self {
            PandasDtypeFacts::Numpy { kind, datetime_unit } =>
                (kind@ == "M"@ || kind@ == "m"@) ==> datetime_unit is Some,
            _ => true,
        }
    }
}

pub const UNSUPPORTED_ARROW_TYPE_REASON: &'static str = "only numeric (int/uint/float), boolean, string, timestamp, and duration ArrowDtype columns are supported in this phase";

pub const UNSUPPORTED_NUMPY_KIND_REASON: &'static str = "only numeric (int/uint/float), boolean, object/string, datetime64, and timedelta64 columns are supported in this phase";

/// Why a non-nanosecond temporal column is rejected (pandas 3.0 parses at microseconds).
pub open spec fn non_ns_reason(unit: Seq<char>) -> Seq<char> {
    "resolution "@ + debug_quoted(unit)
        + " is not supported; only nanosecond ('ns') resolution datetime64/timedelta64 columns are supported in this phase. Note: pandas 3.0 changed the default parsing resolution of pd.to_datetime()/pd.to_timedelta() from nanoseconds to microseconds, so a column built without an explicit dtype may now be "@
        + debug_quoted(unit)
        + " resolution -- cast it explicitly, e.g. .astype('datetime64[ns]') (or the timedelta64 equivalent), before calling flint.Table.from_pandas"@
}

/// Why a masked/other extension dtype is rejected.
pub open spec fn extension_reason(class_name: Seq<char>) -> Seq<char> {
    "pandas masked/extension dtype "@ + class_name
        + " is not supported in this phase (pandas masked nullable extension dtypes such as Int64/boolean/Float64 are out of scope; use an ArrowDtype-backed column, e.g. dtype=\"int64[pyarrow]\", for nullable numeric support)"@
}

/// The optional text of an optional string.
pub open spec fn opt_view(s: Option<String>) -> Option<Seq<char>> {
    match s {
        Some(t) => Some(t@),
        None => None,
    }
}

/// Two kinds are the same kind (time zones compared by their text).
pub open spec fn same_kind(a: ArrowKind, b: ArrowKind) -> bool {
    match (a, b) {
        (ArrowKind::Timestamp { tz: x }, ArrowKind::Timestamp { tz: y }) => opt_view(x) == opt_view(y),
        (ArrowKind::Numeric, ArrowKind::Numeric) => true,
        (ArrowKind::Bool, ArrowKind::Bool) => true,
        (ArrowKind::String, ArrowKind::String) => true,
        (ArrowKind::Categorical, ArrowKind::Categorical) => true,
        (ArrowKind::Duration, ArrowKind::Duration) => true,
        _ => false,
    }
}

/// The outcome of classifying a dtype: the backend and kind, or the rejection reason.
pub open spec fn classification(facts: PandasDtypeFacts) -> Result<(DtypeBackend, ArrowKind), Seq<char>> {
    match facts {
        PandasDtypeFacts::ArrowDtype(t) => {
            if t.is_integer || t.is_floating {
                Ok((DtypeBackend::Arrow, ArrowKind::Numeric))
            } else if t.is_boolean {
                Ok((DtypeBackend::Arrow, ArrowKind::Bool))
            } else if t.is_string || t.is_large_string {
                Ok((DtypeBackend::Arrow, ArrowKind::String))
            } else if t.timestamp is Some {
                let (unit, tz) = t.timestamp->0;
                if unit@ != "ns"@ {
                    Err(non_ns_reason(unit@))
                } else {
                    Ok((DtypeBackend::Arrow, ArrowKind::Timestamp { tz }))
                }
            } else if t.duration is Some {
                let unit = t.duration->0;
                if unit@ != "ns"@ {
                    Err(non_ns_reason(unit@))
                } else {
                    Ok((DtypeBackend::Arrow, ArrowKind::Duration))
                }
            } else {
                Err(UNSUPPORTED_ARROW_TYPE_REASON@)
            }
        },
        PandasDtypeFacts::Categorical => Ok((DtypeBackend::Categorical, ArrowKind::Categorical)),
        PandasDtypeFacts::DatetimeTz { unit, tz } => {
            if unit@ != "ns"@ {
                Err(non_ns_reason(unit@))
            } else {
                Ok((DtypeBackend::Numpy, ArrowKind::Timestamp { tz: Some(tz) }))
            }
        },
        PandasDtypeFacts::OtherExtension { class_name } => Err(extension_reason(class_name@)),
        PandasDtypeFacts::Numpy { kind, datetime_unit } => {
            if kind@ == "b"@ {
                Ok((DtypeBackend::Numpy, ArrowKind::Bool))
            } else if kind@ == "i"@ || kind@ == "u"@ || kind@ == "f"@ {
                Ok((DtypeBackend::Numpy, ArrowKind::Numeric))
            } else if kind@ == "O"@ {
                Ok((DtypeBackend::Numpy, ArrowKind::String))
            } else if kind@ == "M"@ || kind@ == "m"@ {
                let unit = datetime_unit->0;
                if unit@ != "ns"@ {
                    Err(non_ns_reason(unit@))
                } else if kind@ == "M"@ {
                    Ok((DtypeBackend::Numpy, ArrowKind::Timestamp { tz: None }))
                } else {
                    Ok((DtypeBackend::Numpy, ArrowKind::Duration))
                }
            } else {
                Err(UNSUPPORTED_NUMPY_KIND_REASON@)
            }
        },
    }
}

/// The actionable rejection reason for a non-nanosecond datetime/timedelta column.
pub fn non_ns_temporal_rejection_reason(actual_unit: &str) -> (reason: String)
    ensures
        reason@ == non_ns_reason(actual_unit@),
{
    let mut reason = String::from_str("resolution ");
    let quoted = debug_quote(actual_unit);
    reason.append(quoted.as_str());
    reason.append(" is not supported; only nanosecond ('ns') resolution datetime64/timedelta64 columns are supported in this phase. Note: pandas 3.0 changed the default parsing resolution of pd.to_datetime()/pd.to_timedelta() from nanoseconds to microseconds, so a column built without an explicit dtype may now be ");
    reason.append(quoted.as_str());
    reason.append(" resolution -- cast it explicitly, e.g. .astype('datetime64[ns]') (or the timedelta64 equivalent), before calling flint.Table.from_pandas");
    reason
}

fn extension_rejection_reason(class_name: &str) -> (reason: String)
    ensures
        reason@ == extension_reason(class_name@),
{
    let mut reason = String::from_str("pandas masked/extension dtype ");
    reason.append(class_name);
    reason.append(" is not supported in this phase (pandas masked nullable extension dtypes such as Int64/boolean/Float64 are out of scope; use an ArrowDtype-backed column, e.g. dtype=\"int64[pyarrow]\", for nullable numeric support)");
    reason
}

fn clone_opt_string(s: &Option<String>) -> (r: Option<String>)
    ensures
        opt_view(r) == opt_view(*s),
{
    match s {
        Some(t) => Some(t.clone()),
        None => None,
    }
}

fn unsupported(column_name: &str, dtype_str: String, reason: String) -> (e: PydartError)
    ensures
        e matches PydartError::UnsupportedColumn { column, dtype, reason: r }
            && column@ == column_name@ && dtype == dtype_str && r == reason,
{
    PydartError::UnsupportedColumn { column: column_name.to_owned(), dtype: dtype_str, reason }
}

/// Determine a column's `(DtypeBackend, ArrowKind)` from what was read of its pandas dtype,
/// returning `dtype_str` (the dtype's `str()`) alongside; anything outside the supported
/// scope is a `PydartError::UnsupportedColumn` naming the column, the dtype and the reason.
pub fn classify_dtype(facts: &PandasDtypeFacts, dtype_str: String, column_name: &str) -> (r: Result<(DtypeBackend, ArrowKind, String), PydartError>)
    requires
        facts.well_formed(),
    ensures
        match (r, classification(*facts)) {
            (Ok((backend, kind, dtype)), Ok((b, k))) => backend == b && same_kind(kind, k) && dtype == dtype_str,
            (Err(e), Err(reason)) => e matches PydartError::UnsupportedColumn { column, dtype, reason: r }
                && column@ == column_name@ && dtype == dtype_str && r@ == reason,
            _ => false,
        },
{
    match facts {
        PandasDtypeFacts::ArrowDtype(t) => {
            let kind = if t.is_integer || t.is_floating {
                ArrowKind::Numeric
            } else if t.is_boolean {
                ArrowKind::Bool
            } else if t.is_string || t.is_large_string {
                ArrowKind::String
            } else if let Some((unit, tz)) = &t.timestamp {
                if !str_equals(unit.as_str(), "ns") {
                    let reason = non_ns_temporal_rejection_reason(unit.as_str());
                    return Err(unsupported(column_name, dtype_str, reason));
                }
                ArrowKind::Timestamp { tz: clone_opt_string(tz) }
            } else if let Some(unit) = &t.duration {
                if !str_equals(unit.as_str(), "ns") {
                    let reason = non_ns_temporal_rejection_reason(unit.as_str());
                    return Err(unsupported(column_name, dtype_str, reason));
                }
                ArrowKind::Duration
            } else {
                return Err(unsupported(column_name, dtype_str, UNSUPPORTED_ARROW_TYPE_REASON.to_owned()));
            };
            Ok((DtypeBackend::Arrow, kind, dtype_str))
        },
        PandasDtypeFacts::Categorical => Ok((DtypeBackend::Categorical, ArrowKind::Categorical, dtype_str)),
        PandasDtypeFacts::DatetimeTz { unit, tz } => {
            if !str_equals(unit.as_str(), "ns") {
                let reason = non_ns_temporal_rejection_reason(unit.as_str());
                return Err(unsupported(column_name, dtype_str, reason));
            }
            Ok((DtypeBackend::Numpy, ArrowKind::Timestamp { tz: Some(tz.clone()) }, dtype_str))
        },
        PandasDtypeFacts::OtherExtension { class_name } => {
            let reason = extension_rejection_reason(class_name.as_str());
            Err(unsupported(column_name, dtype_str, reason))
        },
        PandasDtypeFacts::Numpy { kind, datetime_unit } => {
            let k = kind.as_str();
            let arrow_kind = if str_equals(k, "b") {
                ArrowKind::Bool
            } else if str_equals(k, "i") || str_equals(k, "u") || str_equals(k, "f") {
                ArrowKind::Numeric
            } else if str_equals(k, "O") {
                ArrowKind::String
            } else if str_equals(k, "M") || str_equals(k, "m") {
                let unit = match datetime_unit {
                    Some(u) => u,
                    None => {
                        return Err(unsupported(column_name, dtype_str, UNSUPPORTED_NUMPY_KIND_REASON.to_owned()));
                    },
                };
                if !str_equals(unit.as_str(), "ns") {
                    let reason = non_ns_temporal_rejection_reason(unit.as_str());
                    return Err(unsupported(column_name, dtype_str, reason));
                }
                if str_equals(k, "M") {
                    ArrowKind::Timestamp { tz: None }
                } else {
                    ArrowKind::Duration
                }
            } else {
                return Err(unsupported(column_name, dtype_str, UNSUPPORTED_NUMPY_KIND_REASON.to_owned()));
            };
            Ok((DtypeBackend::Numpy, arrow_kind, dtype_str))
        },
    }
}

/// Every column accepted as a `pandas.ArrowDtype` is already Arrow memory, and is borrowed
/// without a copy, whatever its contiguity.
pub proof fn accepted_arrow_dtype_columns_are_borrowed(t: PyArrowTypeFacts, is_contiguous: bool)
    requires
        classification(PandasDtypeFacts::ArrowDtype(t)) is Ok,
    ensures
        classification(PandasDtypeFacts::ArrowDtype(t)) matches Ok((backend, kind))
            && spec_plan(backend, kind, is_contiguous) is None,
{
}

/// A nanosecond tz-aware datetime column keeps its time zone's text exactly (no UTC
/// normalization), and is honestly reported as needing a copy.
pub proof fn tz_aware_datetimes_keep_their_zone_and_are_copied(unit: String, tz: String, is_contiguous: bool)
    requires
        unit@ == "ns"@,
    ensures
        classification(PandasDtypeFacts::DatetimeTz { unit, tz }) matches Ok((backend, kind))
            && kind matches ArrowKind::Timestamp { tz: Some(zone) } && zone@ == tz@
            && spec_plan(backend, kind, is_contiguous) == Some(NUMPY_DATETIME_REASON@),
{
}

/// Masked and other non-Arrow pandas extension dtypes are always rejected.
pub proof fn other_extension_dtypes_are_rejected(class_name: String)
    ensures
        classification(PandasDtypeFacts::OtherExtension { class_name }) matches Err(reason)
            && reason == extension_reason(class_name@),
{
}


/// Every `ArrowDtype` whose pyarrow type is a string (`string` or `large_string`) and not
/// numeric or boolean is accepted as an Arrow-backed string column, and only such a type is.
pub proof fn arrow_string_dtypes_are_strings(t: PyArrowTypeFacts)
    ensures
        (!t.is_integer && !t.is_floating && !t.is_boolean && (t.is_string || t.is_large_string))
            <==> classification(PandasDtypeFacts::ArrowDtype(t)) == Ok::<(DtypeBackend, ArrowKind), Seq<char>>((DtypeBackend::Arrow, ArrowKind::String)),
{
}

} // verus!
