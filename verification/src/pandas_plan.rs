//! The single per-column pandas <-> Arrow conversion decision.
//!
//! `plan_column` is the one function that both the conversion path and the
//! strict-mode / `copy_report()` diagnostics consume, so the two can never disagree.

use vstd::prelude::*;

verus! {

/// Which memory layout backs a pandas column's dtype.
#[derive(Debug, Clone, Copy, PartialEq, Eq, Hash)]
pub enum DtypeBackend {
    /// `pandas.ArrowDtype`-backed: the data already is an Arrow array.
    Arrow,
    /// Default numpy-backed: the data is a plain numpy `ndarray`.
    Numpy,
    /// `pandas.CategoricalDtype`-backed: split codes + categories, neither numpy nor Arrow.
    Categorical,
}

/// The logical Arrow type category a column's values fall into.
#[derive(Debug, Clone, PartialEq, Eq, Hash)]
pub enum ArrowKind {
    /// Any integer or floating-point numeric type.
    Numeric,
    /// Boolean (bit-packed in Arrow, one byte per element in numpy).
    Bool,
    /// String data: Arrow-backed strings or numpy object columns of `str`.
    String,
    /// pandas `Categorical` (ordered or unordered).
    Categorical,
    /// Nanosecond timestamp; `tz` is the zone name of a tz-aware column.
    Timestamp { tz: Option<String> },
    /// Nanosecond duration.
    Duration,
}

/// Whether a column can be borrowed as-is, or needs a copy (and why).
#[derive(Debug, Clone, PartialEq, Eq)]
pub enum ColumnPlan {
    /// The column's existing buffer can be borrowed directly with no data copy.
    ZeroCopyBorrow,
    /// Converting this column requires an actual copy of the data buffer.
    RequiresCopy {
        /// Human-readable explanation of why a copy is required.
        reason: String,
    },
}

pub const NON_CONTIGUOUS_REASON: &'static str = "numpy buffer is not contiguous (or has a non-standard stride); cannot be borrowed as a flat contiguous buffer without risking an out-of-bounds read";

pub const NUMPY_BOOL_REASON: &'static str = "numpy bool is stored as 1 byte per element while Arrow bool is bit-packed at 1 bit per element; converting requires a repacking copy";

pub const NUMPY_OBJECT_STRING_REASON: &'static str = "numpy object-dtype string column stores boxed Python str pointers with no contiguous Arrow-compatible UTF-8 buffer; materializing an Arrow string array requires a copy";

pub const CATEGORICAL_REASON: &'static str = "pandas Categorical stores a split codes+categories representation with no single flat Arrow-compatible buffer; dictionary-encoding it into an Arrow DictionaryArray requires a copy (OQ2)";

pub const NUMPY_DATETIME_REASON: &'static str = "numpy datetime64[ns] storage (plain or tz-aware DatetimeTZDtype) is not an Arrow-compatible buffer; materializing an Arrow Timestamp array requires a copy via the pandas stream fallback (D-15)";

pub const NUMPY_TIMEDELTA_REASON: &'static str = "numpy timedelta64[ns] storage is not an Arrow-compatible buffer; materializing an Arrow Duration array requires a copy via the pandas stream fallback (D-15)";

pub const UNEXPECTED_PAIRING_REASON: &'static str = "unexpected dtype backend/kind pairing; defaulting to a safe copy rather than an unreachable panic";

/// The borrow matrix: Arrow-backed columns (of any kind but the categorical pairing, which
/// never occurs) and contiguous numpy numerics are borrowable; everything else is copied.
pub open spec fn is_borrowable(backend: DtypeBackend, kind: ArrowKind, is_contiguous: bool) -> bool {
    match backend {
        DtypeBackend::Arrow => !(kind is Categorical),
        DtypeBackend::Numpy => kind is Numeric && is_contiguous,
        DtypeBackend::Categorical => false,
    }
}

/// The reason text a copied column carries.
pub open spec fn copy_reason(backend: DtypeBackend, kind: ArrowKind) -> Seq<char> {
    match (backend, kind) {
        (DtypeBackend::Numpy, ArrowKind::Numeric) => NON_CONTIGUOUS_REASON@,
        (DtypeBackend::Numpy, ArrowKind::Bool) => NUMPY_BOOL_REASON@,
        (DtypeBackend::Numpy, ArrowKind::String) => NUMPY_OBJECT_STRING_REASON@,
        (DtypeBackend::Categorical, ArrowKind::Categorical) => CATEGORICAL_REASON@,
        (DtypeBackend::Numpy, ArrowKind::Timestamp { .. }) => NUMPY_DATETIME_REASON@,
        (DtypeBackend::Numpy, ArrowKind::Duration) => NUMPY_TIMEDELTA_REASON@,
        _ => UNEXPECTED_PAIRING_REASON@,
    }
}

impl ColumnPlan {
    /// This plan as its mathematical content: `None` for a borrow, the reason for a copy.
    pub open spec fn spec_reason(&self) -> Option<Seq<char>> {
        match self {
            ColumnPlan::ZeroCopyBorrow => None,
            ColumnPlan::RequiresCopy { reason } => Some(reason@),
        }
    }
}

/// The plan `plan_column` produces, as mathematical content.
pub open spec fn spec_plan(backend: DtypeBackend, kind: ArrowKind, is_contiguous: bool) -> Option<Seq<char>> {
    if is_borrowable(backend, kind, is_contiguous) {
        None
    } else {
        Some(copy_reason(backend, kind))
    }
}

fn requires_copy(reason: &str) -> (plan: ColumnPlan)
    ensures
        plan.spec_reason() == Some(reason@),
{
    ColumnPlan::RequiresCopy { reason: reason.to_owned() }
}

/// Decide how a single pandas column should be converted, given its dtype backend, logical
/// Arrow type, and (for numpy-backed columns) whether its buffer is contiguous.
///
/// | Backend     | Kind            | Contiguous | Plan            |
/// |-------------|-----------------|------------|-----------------|
/// | Arrow       | Numeric/Bool/String/Timestamp/Duration | (n/a) | `ZeroCopyBorrow` |
/// | Numpy       | Numeric         | true       | `ZeroCopyBorrow`|
/// | Numpy       | Numeric         | false      | `RequiresCopy`  |
/// | Numpy       | Bool/String/Timestamp/Duration | (n/a) | `RequiresCopy` |
/// | Categorical | Categorical     | (n/a)      | `RequiresCopy`  |
/// | any other pairing | | (n/a)            | `RequiresCopy`  |
pub fn plan_column(dtype_backend: DtypeBackend, arrow_kind: ArrowKind, is_contiguous: bool) -> (plan: ColumnPlan)
    ensures
        plan.spec_reason() == spec_plan(dtype_backend, arrow_kind, is_contiguous),
        (plan is ZeroCopyBorrow) <==> is_borrowable(dtype_backend, arrow_kind, is_contiguous),
{
    match (dtype_backend, arrow_kind) {
        (DtypeBackend::Arrow, ArrowKind::Numeric) => ColumnPlan::ZeroCopyBorrow,
        (DtypeBackend::Arrow, ArrowKind::Bool) => ColumnPlan::ZeroCopyBorrow,
        (DtypeBackend::Numpy, ArrowKind::Numeric) => {
            if is_contiguous {
                ColumnPlan::ZeroCopyBorrow
            } else {
                requires_copy(NON_CONTIGUOUS_REASON)
            }
        },
        (DtypeBackend::Numpy, ArrowKind::Bool) => requires_copy(NUMPY_BOOL_REASON),
        (DtypeBackend::Arrow, ArrowKind::String) => ColumnPlan::ZeroCopyBorrow,
        (DtypeBackend::Numpy, ArrowKind::String) => requires_copy(NUMPY_OBJECT_STRING_REASON),
        (DtypeBackend::Categorical, ArrowKind::Categorical) => requires_copy(CATEGORICAL_REASON),
        (DtypeBackend::Arrow, ArrowKind::Timestamp { .. }) => ColumnPlan::ZeroCopyBorrow,
        (DtypeBackend::Arrow, ArrowKind::Duration) => ColumnPlan::ZeroCopyBorrow,
        (DtypeBackend::Numpy, ArrowKind::Timestamp { .. }) => requires_copy(NUMPY_DATETIME_REASON),
        (DtypeBackend::Numpy, ArrowKind::Duration) => requires_copy(NUMPY_TIMEDELTA_REASON),
        (DtypeBackend::Arrow, ArrowKind::Categorical)
        | (DtypeBackend::Numpy, ArrowKind::Categorical)
        | (DtypeBackend::Categorical, ArrowKind::Numeric)
        | (DtypeBackend::Categorical, ArrowKind::Bool)
        | (DtypeBackend::Categorical, ArrowKind::String)
        | (DtypeBackend::Categorical, ArrowKind::Timestamp { .. })
        | (DtypeBackend::Categorical, ArrowKind::Duration) => requires_copy(UNEXPECTED_PAIRING_REASON),
    }
}


/// Contiguity is consulted only for numpy-backed numeric columns: for every other
/// backend/kind pairing the plan is the same whether or not the buffer is contiguous.
pub proof fn contiguity_matters_only_for_numpy_numerics(backend: DtypeBackend, kind: ArrowKind)
    requires
        !(backend is Numpy && kind is Numeric),
    ensures
        spec_plan(backend, kind, true) == spec_plan(backend, kind, false),
{
}

/// Every Arrow-backed column (of any kind a pandas `ArrowDtype` can carry) is borrowed
/// without a copy.
pub proof fn arrow_backed_columns_are_borrowed(kind: ArrowKind, is_contiguous: bool)
    requires
        !(kind is Categorical),
    ensures
        spec_plan(DtypeBackend::Arrow, kind, is_contiguous) is None,
{
}

/// A timestamp column's time zone never changes its plan.
pub proof fn timezone_never_changes_the_plan(
    backend: DtypeBackend,
    tz1: Option<String>,
    tz2: Option<String>,
    is_contiguous: bool,
)
    ensures
        spec_plan(backend, ArrowKind::Timestamp { tz: tz1 }, is_contiguous)
            == spec_plan(backend, ArrowKind::Timestamp { tz: tz2 }, is_contiguous),
{
}

/// A pandas `Categorical` column is always copied, with a reason that names it.
pub proof fn categorical_columns_are_copied_with_a_categorical_reason(is_contiguous: bool)
    ensures
        spec_plan(DtypeBackend::Categorical, ArrowKind::Categorical, is_contiguous) matches Some(reason)
            && reason.subrange(7, 18) == "Categorical"@,
{
    reveal_strlit("pandas Categorical stores a split codes+categories representation with no single flat Arrow-compatible buffer; dictionary-encoding it into an Arrow DictionaryArray requires a copy (OQ2)");
    reveal_strlit("Categorical");
    assert(CATEGORICAL_REASON@.subrange(7, 18) =~= "Categorical"@);
}

} // verus!
