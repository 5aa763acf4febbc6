//! `pydart`: the verified decision core of a pandas <-> Arrow <-> Parquet bridge.
//!
//! Every per-column copy-vs-borrow decision, dtype classification, strict-mode check,
//! Parquet filter/row-group pruning decision and Parquet writer option choice lives here
//! with a machine-checked contract. The Python bindings and file I/O that surround it live
//! in the `app/` crate.

pub mod diagnostics;
pub mod dtype;
pub mod error;
pub mod format;
pub mod ieee754;
pub mod pandas_convert;
pub mod pandas_plan;
pub mod parquet_args;
pub mod parquet_filter;
pub mod parquet_io;
pub mod table;
pub mod text;
