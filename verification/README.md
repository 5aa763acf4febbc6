# pydart

A pandas <-> Arrow <-> Parquet bridge for Python whose decisions are verified with Verus.

## Layout

- `src/` is the verified library. Every decision the bridge makes stands there with a
  contract, checked by Verus:
  - `pandas_plan`: whether a pandas column can be borrowed as Arrow memory or has to be copied,
    and why;
  - `dtype`: how a pandas dtype is classified (`ArrowDtype`, `Categorical`, `DatetimeTZDtype`,
    other extension dtypes, plain numpy dtypes), including the nanosecond-only rule;
  - `pandas_convert`: the steps each column takes, the check of object-dtype string columns,
    and the numpy buffer types that can be borrowed;
  - `diagnostics`: the per-column conversion records, and strict mode;
  - `parquet_filter`: filter operators and scalars, and the decision whether a row group whose
    statistics are `[min, max]` might hold a matching row;
  - `parquet_io`: writer options, schema agreement across files, and row-group pruning from a
    file's own column statistics;
  - `parquet_args`: the checks of `from_parquet`'s filter tuples and path arguments;
  - `ieee754`: binary64 values held as bit patterns, compared exactly, and the rounding of an
    `i64` into binary64;
  - `text`, `format`: byte-wise string order and message rendering.
- `tests/` runs the library on concrete values.
- `app/` is the Python extension module (`_pydart`, built with pyo3): it reads what the library
  needs from pandas, numpy and pyarrow objects and from the file system, calls the library, and
  carries out its decisions with arrow and parquet.

Floating-point values reach the library only as their IEEE 754 bit patterns (`f64::to_bits`).
