//! The library's error type.
//!
//! Every failure the library reports is a `PydartError`; the Python bindings turn each variant
//! into the matching Python exception and message.

use vstd::prelude::*;
use crate::format::{debug_quote, debug_quoted};

verus! {

#[verifier::external_type_specification]
#[verifier::external_body]
pub struct ExArrowError(arrow::error::ArrowError);

/// All errors raised by the library.
#[derive(Debug)]
pub enum PydartError {
    /// A feature that exists in the public API surface but is not yet implemented.
    NotImplemented(String),
    /// A pandas column whose dtype (or content) is outside the supported scope.
    UnsupportedColumn {
        column: String,
        dtype: String,
        reason: String,
    },
    /// An underlying arrow-rs error surfaced during conversion.
    Arrow(arrow::error::ArrowError),
    /// A `to_parquet` compression codec outside "snappy", "zstd", "gzip", "uncompressed".
    UnsupportedCodec(String),
    /// A `from_parquet` filter operator outside the six supported ones.
    UnsupportedFilterOperator {
        column: String,
        operator: String,
    },
    /// Two Parquet files of one read disagree on a column.
    ParquetSchemaMismatch {
        first_file: String,
        other_file: String,
        column: String,
    },
    /// A Parquet file that failed to open or parse.
    ParquetReadError {
        path: String,
        reason: String,
    },
    /// A `from_parquet` path argument that resolves to no file, or has the wrong shape.
    InvalidParquetPathArgument(String),
    /// Any other failure.
    Other(String),
}

/// An error's message, for every variant but `Arrow` (whose text is arrow's own).
pub open spec fn error_message(e: PydartError) -> Seq<char> {
    match e {
        PydartError::NotImplemented(s) => s@ + " is not yet implemented"@,
        PydartError::UnsupportedColumn { column, dtype, reason } => "column "@ + debug_quoted(column@)
            + " (dtype="@ + dtype@ + ") is not supported: "@ + reason@,
        PydartError::Arrow(_) => "arrow error: "@,
        PydartError::UnsupportedCodec(c) => "unsupported compression codec "@ + debug_quoted(c@)
            + ": expected one of \"snappy\", \"zstd\", \"gzip\", \"uncompressed\""@,
        PydartError::UnsupportedFilterOperator { column, operator } => "unsupported filter operator "@
            + debug_quoted(operator@) + " on column "@ + debug_quoted(column@)
            + ": expected one of \"==\", \"!=\", \"<\", \"<=\", \">\", \">=\""@,
        PydartError::ParquetSchemaMismatch { first_file, other_file, column } =>
            "schema mismatch across Parquet files: "@ + debug_quoted(first_file@) + " and "@
                + debug_quoted(other_file@) + " disagree on column "@ + debug_quoted(column@),
        PydartError::ParquetReadError { path, reason } => "failed to read Parquet file "@
            + debug_quoted(path@) + ": "@ + reason@,
        PydartError::InvalidParquetPathArgument(s) => s@,
        PydartError::Other(s) => s@,
    }
}

/// `ArrowError`'s `Display` text. Its content is not stated: an I/O error's text is the
/// operating system's message, which depends on the machine.
#[verifier::external_body]
fn arrow_error_text(e: &arrow::error::ArrowError) -> String {
    e.to_string()
}

impl PydartError {
    /// The error's message (what its Python exception carries): see `error_message`; an
    /// `Arrow` error is `arrow error: ` followed by arrow's own text.
    pub fn message(&self) -> (m: String)
        ensures
            !(self is Arrow) ==> m@ == error_message(*self),
            self is Arrow ==> exists|text: Seq<char>| m@ == error_message(*self) + text,
    {
        match self {
            PydartError::NotImplemented(s) => {
                let mut m = s.clone();
                m.append(" is not yet implemented");
                m
            },
            PydartError::UnsupportedColumn { column, dtype, reason } => {
                let mut m = String::from_str("column ");
                m.append(debug_quote(column.as_str()).as_str());
                m.append(" (dtype=");
                m.append(dtype.as_str());
                m.append(") is not supported: ");
                m.append(reason.as_str());
                m
            },
            PydartError::Arrow(e) => {
                let mut m = String::from_str("arrow error: ");
                let text = arrow_error_text(e);
                m.append(text.as_str());
                assert(m@ == error_message(*self) + text@);
                m
            },
            PydartError::UnsupportedCodec(c) => {
                let mut m = String::from_str("unsupported compression codec ");
                m.append(debug_quote(c.as_str()).as_str());
                m.append(": expected one of \"snappy\", \"zstd\", \"gzip\", \"uncompressed\"");
                m
            },
            PydartError::UnsupportedFilterOperator { column, operator } => {
                let mut m = String::from_str("unsupported filter operator ");
                m.append(debug_quote(operator.as_str()).as_str());
                m.append(" on column ");
                m.append(debug_quote(column.as_str()).as_str());
                m.append(": expected one of \"==\", \"!=\", \"<\", \"<=\", \">\", \">=\"");
                m
            },
            PydartError::ParquetSchemaMismatch { first_file, other_file, column } => {
                let mut m = String::from_str("schema mismatch across Parquet files: ");
                m.append(debug_quote(first_file.as_str()).as_str());
                m.append(" and ");
                m.append(debug_quote(other_file.as_str()).as_str());
                m.append(" disagree on column ");
                m.append(debug_quote(column.as_str()).as_str());
                m
            },
            PydartError::ParquetReadError { path, reason } => {
                let mut m = String::from_str("failed to read Parquet file ");
                m.append(debug_quote(path.as_str()).as_str());
                m.append(": ");
                m.append(reason.as_str());
                m
            },
            PydartError::InvalidParquetPathArgument(s) => s.clone(),
            PydartError::Other(s) => s.clone(),
        }
    }
}

/// The Python exception class an error is raised as.
#[derive(Debug, Clone, Copy, PartialEq, Eq)]
pub enum ExceptionKind {
    /// The builtin `NotImplementedError`.
    NotImplemented,
    /// `pydart.PydartError`: the caller's input was refused.
    Pydart,
    /// The builtin `ValueError`: an underlying I/O, parse or arrow failure.
    Value,
}

impl PydartError {
    /// Whether the error refuses the caller's input (a column, codec, filter operator,
    /// mismatched file set or path argument), as opposed to wrapping a failure underneath.
    pub open spec fn refuses_input(&self) -> bool {
        ||| self is UnsupportedColumn
        ||| self is UnsupportedCodec
        ||| self is UnsupportedFilterOperator
        ||| self is ParquetSchemaMismatch
        ||| self is InvalidParquetPathArgument
    }

    /// The Python exception class this error is raised as: refused input is a catchable
    /// `pydart.PydartError`, an unimplemented feature a `NotImplementedError`, and everything
    /// else (read, arrow and other failures) a `ValueError`.
    pub fn exception_kind(&self) -> (k: ExceptionKind)
        ensures
            (k == ExceptionKind::NotImplemented) <==> (self is NotImplemented),
            (k == ExceptionKind::Pydart) <==> self.refuses_input(),
            (k == ExceptionKind::Value) <==> (self is ParquetReadError || self is Arrow || self is Other),
    {
        match self {
            PydartError::NotImplemented(_) => ExceptionKind::NotImplemented,
            PydartError::UnsupportedColumn { .. } => ExceptionKind::Pydart,
            PydartError::UnsupportedCodec(_) => ExceptionKind::Pydart,
            PydartError::UnsupportedFilterOperator { .. } => ExceptionKind::Pydart,
            PydartError::ParquetSchemaMismatch { .. } => ExceptionKind::Pydart,
            PydartError::InvalidParquetPathArgument(_) => ExceptionKind::Pydart,
            PydartError::ParquetReadError { .. } => ExceptionKind::Value,
            PydartError::Arrow(_) => ExceptionKind::Value,
            PydartError::Other(_) => ExceptionKind::Value,
        }
    }
}

} // verus!
