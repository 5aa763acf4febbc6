//! The decisions of Parquet reading and writing: writer options, strict schema agreement
//! across files, and row-group pruning from column statistics.
//!
//! Opening, writing and decoding files happens in the Python bindings; everything they
//! decide on the way goes through this module.

use vstd::prelude::*;
use parquet::basic::{BrotliLevel, Compression, GzipLevel, ZstdLevel};
use parquet::errors::ParquetError;
use parquet::file::properties::{WriterProperties, WriterPropertiesBuilder};
use parquet::file::metadata::ParquetMetaData;
use parquet::schema::types::SchemaDescriptor;
use parquet::arrow::arrow_reader::statistics::StatisticsConverter;
use arrow::array::{Array, ArrayRef, AsArray};
use arrow::datatypes::{
    DataType, Schema, Float32Type, Float64Type, Int16Type, Int32Type, Int64Type, Int8Type,
    UInt16Type, UInt32Type, UInt8Type,
};
use crate::ieee754::{f32_to_f64_bits, is_nan_bits, is_nan_bits_32, extended_value, extended_value_32};
use crate::error::PydartError;
use crate::text::str_equals;
use crate::format::{debug_quote, debug_quoted, decimal, push_decimal};
use crate::parquet_filter::{
    FilterExpr, ScalarValue, could_match_range, range_might_match, same_order_domain, same_column_type, within_range,
    scalar_comparison, op_holds, pruning_keeps_every_possible_match,
};

verus! {

#[verifier::external_type_specification]
#[verifier::external_body]
pub struct ExWriterProperties(WriterProperties);

#[verifier::external_type_specification]
#[verifier::external_body]
pub struct ExWriterPropertiesBuilder(WriterPropertiesBuilder);

#[verifier::external_type_specification]
pub struct ExCompression(Compression);

#[verifier::external_type_specification]
#[verifier::external_body]
pub struct ExGzipLevel(GzipLevel);

#[verifier::external_type_specification]
#[verifier::external_body]
pub struct ExZstdLevel(ZstdLevel);

#[verifier::external_type_specification]
#[verifier::external_body]
pub struct ExBrotliLevel(BrotliLevel);

#[verifier::external_type_specification]
#[verifier::external_body]
pub struct ExParquetError(ParquetError);

/// The default codec a properties builder has been given, if any.
pub uninterp spec fn builder_compression(builder: WriterPropertiesBuilder) -> Option<Compression>;

/// The row-group row limit of a properties builder (`None`: unlimited).
pub uninterp spec fn builder_row_group_limit(builder: WriterPropertiesBuilder) -> Option<usize>;

/// The codec `WriterProperties::compression` gives a column without a codec of its own.
pub uninterp spec fn default_compression(properties: WriterProperties) -> Compression;

/// `WriterProperties::max_row_group_row_count`.
pub uninterp spec fn row_group_limit(properties: WriterProperties) -> Option<usize>;

/// `WriterProperties::builder`: a builder with parquet's default options.
pub assume_specification[ WriterProperties::builder ]() -> WriterPropertiesBuilder;

/// `WriterPropertiesBuilder::set_compression`: sets the default codec of every column,
/// leaving the row-group limit as it was.
pub assume_specification[ WriterPropertiesBuilder::set_compression ](
    builder: WriterPropertiesBuilder,
    value: Compression,
) -> (r: WriterPropertiesBuilder)
    ensures
        builder_compression(r) == Some(value),
        builder_row_group_limit(r) == builder_row_group_limit(builder),
;

/// `WriterPropertiesBuilder::set_max_row_group_row_count`: sets the row-group row limit,
/// leaving the codec as it was; it panics on `Some(0)`, which is therefore excluded.
pub assume_specification[ WriterPropertiesBuilder::set_max_row_group_row_count ](
    builder: WriterPropertiesBuilder,
    value: Option<usize>,
) -> (r: WriterPropertiesBuilder)
    requires
        value != Some(0usize),
    ensures
        builder_row_group_limit(r) == value,
        builder_compression(r) == builder_compression(builder),
;

/// `WriterPropertiesBuilder::build`: the finished properties, with the builder's row-group
/// limit and default codec (`UNCOMPRESSED` when none was set).
pub assume_specification[ WriterPropertiesBuilder::build ](builder: WriterPropertiesBuilder) -> (r: WriterProperties)
    ensures
        row_group_limit(r) == builder_row_group_limit(builder),
        default_compression(r) == match builder_compression(builder) {
            Some(c) => c,
            None => Compression::UNCOMPRESSED,
        },
;

/// The gzip level `GzipLevel` holds as `level`.
pub uninterp spec fn gzip_level(level: u32) -> GzipLevel;

/// The zstd level `ZstdLevel` holds as `level`.
pub uninterp spec fn zstd_level(level: i32) -> ZstdLevel;

/// `GzipLevel::default`: level 6.
pub assume_specification[ <GzipLevel as core::default::Default>::default ]() -> (r: GzipLevel)
    ensures
        r == gzip_level(6),
;

/// `ZstdLevel::default`: level 1.
pub assume_specification[ <ZstdLevel as core::default::Default>::default ]() -> (r: ZstdLevel)
    ensures
        r == zstd_level(1),
;

/// The `ParquetError` variants that carry just a message.
#[derive(Debug, Clone, Copy, PartialEq, Eq)]
pub enum MessageErrorKind {
    /// `ParquetError::General`.
    General,
    /// `ParquetError::NYI`.
    NotYetImplemented,
    /// `ParquetError::EOF`.
    EndOfFile,
    /// `ParquetError::ArrowError`.
    Arrow,
}

/// The variant and message of a `ParquetError` that carries just a message; `None` for
/// every other variant.
pub uninterp spec fn message_error(e: ParquetError) -> Option<(MessageErrorKind, Seq<char>)>;

/// The index and bound of a `ParquetError::IndexOutOfBound`; `None` for every other variant.
pub uninterp spec fn index_error(e: ParquetError) -> Option<(usize, usize)>;

/// The message a `ParquetError::General` carries; `None` for every other variant.
pub open spec fn general_error_text(e: ParquetError) -> Option<Seq<char>> {
    match message_error(e) {
        Some((MessageErrorKind::General, m)) => Some(m),
        _ => None,
    }
}

/// How `ParquetError`'s `Display` renders the variants whose text its own fields fix.
pub open spec fn parquet_error_message(e: ParquetError) -> Option<Seq<char>> {
    match (message_error(e), index_error(e)) {
        (Some((MessageErrorKind::General, m)), _) => Some("Parquet error: "@ + m),
        (Some((MessageErrorKind::NotYetImplemented, m)), _) => Some("NYI: "@ + m),
        (Some((MessageErrorKind::EndOfFile, m)), _) => Some("EOF: "@ + m),
        (Some((MessageErrorKind::Arrow, m)), _) => Some("Arrow: "@ + m),
        (None, Some((index, bound))) => Some("Index "@ + decimal(index as nat) + " out of bound: "@ + decimal(bound as nat)),
        _ => None,
    }
}

/// `ParquetError::General(message)`.
#[verifier::external_body]
fn general_error(message: String) -> (e: ParquetError)
    ensures
        message_error(e) == Some((MessageErrorKind::General, message@)),
        index_error(e) is None,
{
    ParquetError::General(message)
}

/// The four supported compression codecs.
#[derive(Debug, Clone, Copy, PartialEq, Eq)]
pub enum Codec {
    Snappy,
    Zstd,
    Gzip,
    Uncompressed,
}

/// The codec a `compression` argument names, if any.
pub open spec fn codec_named(name: Seq<char>) -> Option<Codec> {
    if name == "snappy"@ {
        Some(Codec::Snappy)
    } else if name == "zstd"@ {
        Some(Codec::Zstd)
    } else if name == "gzip"@ {
        Some(Codec::Gzip)
    } else if name == "uncompressed"@ {
        Some(Codec::Uncompressed)
    } else {
        None
    }
}

/// Look up a codec by its name: exactly "snappy", "zstd", "gzip" or "uncompressed".
pub fn parse_codec(name: &str) -> (c: Option<Codec>)
    ensures
        c == codec_named(name@),
{
    if str_equals(name, "snappy") {
        Some(Codec::Snappy)
    } else if str_equals(name, "zstd") {
        Some(Codec::Zstd)
    } else if str_equals(name, "gzip") {
        Some(Codec::Gzip)
    } else if str_equals(name, "uncompressed") {
        Some(Codec::Uncompressed)
    } else {
        None
    }
}

/// The parquet codec a supported codec stands for (gzip and zstd at their default levels,
/// 6 and 1).
pub open spec fn is_compression_of(codec: Codec, c: Compression) -> bool {
    match codec {
        Codec::Snappy => c == Compression::SNAPPY,
        Codec::Zstd => c == Compression::ZSTD(zstd_level(1)),
        Codec::Gzip => c == Compression::GZIP(gzip_level(6)),
        Codec::Uncompressed => c == Compression::UNCOMPRESSED,
    }
}

/// parquet's `Compression` for a codec: `SNAPPY`, `ZSTD(ZstdLevel::default())`,
/// `GZIP(GzipLevel::default())`, `UNCOMPRESSED`.
fn compression_of(codec: Codec) -> (c: Compression)
    ensures
        is_compression_of(codec, c),
{
    match codec {
        Codec::Snappy => Compression::SNAPPY,
        Codec::Zstd => Compression::ZSTD(ZstdLevel::default()),
        Codec::Gzip => Compression::GZIP(GzipLevel::default()),
        Codec::Uncompressed => Compression::UNCOMPRESSED,
    }
}

/// The message of an unsupported codec name.
pub open spec fn unsupported_codec_message(codec: Seq<char>) -> Seq<char> {
    "unsupported compression codec "@ + debug_quoted(codec)
}

/// The error of an unsupported codec name: a `ParquetError::General` naming it.
fn unsupported_codec_error(codec: &str) -> (e: ParquetError)
    ensures
        general_error_text(e) == Some(unsupported_codec_message(codec@)),
{
    let mut message = String::from_str("unsupported compression codec ");
    let quoted = debug_quote(codec);
    message.append(quoted.as_str());
    general_error(message)
}

/// Build the `WriterProperties` for a codec name and a row-group size in rows.
///
/// The codec must be one of the four supported names; any other name is an error, never a
/// silent default. `row_group_size` must be positive (parquet panics on a zero row limit).
pub fn build_writer_properties(codec: &str, row_group_size: usize) -> (r: Result<WriterProperties, ParquetError>)
    requires
        row_group_size > 0,
    ensures
        r is Ok <==> codec_named(codec@) is Some,
        r matches Err(e) ==> general_error_text(e) == Some(unsupported_codec_message(codec@)),
        r matches Ok(p) ==> (row_group_limit(p) == Some(row_group_size)
            && (codec_named(codec@) matches Some(c) && is_compression_of(c, default_compression(p)))),
{
    match parse_codec(codec) {
        Some(c) => {
            let builder = WriterProperties::builder();
            let builder = builder.set_compression(compression_of(c));
            let builder = builder.set_max_row_group_row_count(Some(row_group_size));
            Ok(builder.build())
        },
        None => Err(unsupported_codec_error(codec)),
    }
}

pub const ZERO_ROW_GROUP_SIZE_MESSAGE: &'static str = "row_group_size must be greater than 0";

/// The writer options of `Table.to_parquet(path, compression, row_group_size)`: a zero
/// `row_group_size` is rejected first, then an unsupported codec (naming the codec).
pub fn writer_properties_for_table(compression: &str, row_group_size: usize) -> (r: Result<WriterProperties, PydartError>)
    ensures
        row_group_size == 0 ==> (r matches Err(PydartError::Other(m)) && m@ == ZERO_ROW_GROUP_SIZE_MESSAGE@),
        row_group_size > 0 && codec_named(compression@) is None ==> (r matches Err(PydartError::UnsupportedCodec(c)) && c@ == compression@),
        r is Ok <==> row_group_size > 0 && codec_named(compression@) is Some,
        r matches Ok(p) ==> (row_group_limit(p) == Some(row_group_size)
            && (codec_named(compression@) matches Some(c) && is_compression_of(c, default_compression(p)))),
{
    if row_group_size == 0 {
        return Err(PydartError::Other(ZERO_ROW_GROUP_SIZE_MESSAGE.to_owned()));
    }
    match build_writer_properties(compression, row_group_size) {
        Ok(properties) => Ok(properties),
        Err(_) => Err(PydartError::UnsupportedCodec(compression.to_owned())),
    }
}


/// What the strict cross-file schema check reads of a field: its name, its Arrow data type
/// (as an index into the list of distinct data types met, so equal types have equal
/// indices), and its nullability.
#[derive(Debug, Clone)]
pub struct FieldSummary {
    pub name: String,
    pub data_type: usize,
    pub nullable: bool,
}

/// Two fields are the same logical column: same name, data type and nullability (field
/// metadata and dictionary ordering are not compared).
pub open spec fn fields_agree(a: FieldSummary, b: FieldSummary) -> bool {
    a.name@ == b.name@ && a.data_type == b.data_type && a.nullable == b.nullable
}

/// Whether the schemas disagree at position `i` (one of them lacks it, or the fields differ).
pub open spec fn mismatch_at(a: Seq<FieldSummary>, b: Seq<FieldSummary>, i: int) -> bool {
    i >= a.len() || i >= b.len() || !fields_agree(a[i], b[i])
}

/// The first position at or after `i` where the schemas disagree.
pub open spec fn first_mismatch_from(a: Seq<FieldSummary>, b: Seq<FieldSummary>, i: nat) -> Option<int>
    decreases (if a.len() > b.len() { a.len() } else { b.len() }) - i,
{
    if i >= a.len() && i >= b.len() {
        None
    } else if mismatch_at(a, b, i as int) {
        Some(i as int)
    } else {
        first_mismatch_from(a, b, i + 1)
    }
}

/// The name of the first column at which two schemas disagree (taken from the first schema
/// where it has that column, else from the second), or `None` when every field matches
/// positionally.
pub fn first_schema_mismatch(a: &[FieldSummary], b: &[FieldSummary]) -> (r: Option<String>)
    ensures
        match (r, first_mismatch_from(a@, b@, 0)) {
            (None, None) => true,
            (Some(name), Some(i)) => name@ == if i < a@.len() {
                a@[i].name@
            } else {
                b@[i].name@
            },
            _ => false,
        },
{
    let max_len = if a.len() > b.len() { a.len() } else { b.len() };
    let mut i: usize = 0;
    while i < max_len
        invariant
            i <= max_len,
            max_len == if a@.len() > b@.len() { a@.len() } else { b@.len() },
            first_mismatch_from(a@, b@, 0) == first_mismatch_from(a@, b@, i as nat),
        decreases max_len - i,
    {
        if i < a.len() && i < b.len() {
            let fa = &a[i];
            let fb = &b[i];
            if !(str_equals(fa.name.as_str(), fb.name.as_str()) && fa.data_type == fb.data_type
                && fa.nullable == fb.nullable) {
                return Some(fa.name.clone());
            }
        } else if i < a.len() {
            return Some(a[i].name.clone());
        } else {
            return Some(b[i].name.clone());
        }
        i = i + 1;
    }
    None
}

/// A row group's statistics for one filter's column: `None` where unknown.
#[derive(Debug, Clone)]
pub struct RowGroupBounds {
    pub min: Option<ScalarValue>,
    pub max: Option<ScalarValue>,
}

/// Whether a filter keeps a row group with these bounds (a missing bound keeps it).
pub open spec fn filter_keeps(filter: FilterExpr, b: RowGroupBounds) -> bool {
    match (b.min, b.max) {
        (Some(lo), Some(hi)) => range_might_match(filter.op, filter.value, lo, hi),
        _ => true,
    }
}

/// A row group survives when every (AND-combined) filter keeps it.
pub open spec fn row_group_survives(filters: Seq<FilterExpr>, bounds: Seq<Vec<RowGroupBounds>>, g: int) -> bool {
    forall|k: int| 0 <= k < filters.len() ==> #[trigger] filter_keeps(filters[k], bounds[k]@[g])
}

/// The bounds hold one list per filter, of one entry per row group.
pub open spec fn bounds_cover(filters: Seq<FilterExpr>, bounds: Seq<Vec<RowGroupBounds>>, n: nat) -> bool {
    bounds.len() == filters.len() && forall|k: int| 0 <= k < bounds.len() ==> #[trigger] bounds[k]@.len() == n
}

/// `kept` lists, in increasing order, exactly the surviving row groups among `0..n`.
pub open spec fn lists_survivors(kept: Seq<usize>, n: nat, filters: Seq<FilterExpr>, bounds: Seq<Vec<RowGroupBounds>>) -> bool {
    &&& forall|j: int| 0 <= j < kept.len() ==> #[trigger] kept[j] < n && row_group_survives(filters, bounds, kept[j] as int)
    &&& forall|j: int, l: int| 0 <= j < l < kept.len() ==> kept[j] < kept[l]
    &&& forall|g: int| 0 <= g < n && row_group_survives(filters, bounds, g) ==> kept.contains(g as usize)
}

/// The row groups (among `0..num_row_groups`) that every filter might match, given each
/// filter's per-row-group statistics; a row group is skipped only when some filter's
/// `could_match_range` rules it out.
pub fn select_row_groups(num_row_groups: usize, filters: &[FilterExpr], bounds: &[Vec<RowGroupBounds>]) -> (kept: Vec<usize>)
    requires
        bounds_cover(filters@, bounds@, num_row_groups as nat),
    ensures
        lists_survivors(kept@, num_row_groups as nat, filters@, bounds@),
{
    let mut keep: Vec<bool> = Vec::new();
    let mut g: usize = 0;
    while g < num_row_groups
        invariant
            g <= num_row_groups,
            keep@.len() == g,
            forall|h: int| 0 <= h < g ==> keep@[h],
        decreases num_row_groups - g,
    {
        keep.push(true);
        g = g + 1;
    }
    let mut k: usize = 0;
    while k < filters.len()
        invariant
            k <= filters@.len(),
            bounds_cover(filters@, bounds@, num_row_groups as nat),
            keep@.len() == num_row_groups,
            forall|h: int| 0 <= h < num_row_groups ==> #[trigger] keep@[h]
                == forall|k2: int| 0 <= k2 < k ==> #[trigger] filter_keeps(filters@[k2], bounds@[k2]@[h]),
        decreases filters.len() - k,
    {
        let filter = &filters[k];
        let row_bounds = &bounds[k];
        let mut g: usize = 0;
        while g < num_row_groups
            invariant
                g <= num_row_groups,
                k < filters@.len(),
                *filter == filters@[k as int],
                *row_bounds == bounds@[k as int],
                row_bounds@.len() == num_row_groups,
                keep@.len() == num_row_groups,
                forall|h: int| 0 <= h < g ==> #[trigger] keep@[h]
                    == forall|k2: int| 0 <= k2 <= k ==> #[trigger] filter_keeps(filters@[k2], bounds@[k2]@[h]),
                forall|h: int| g <= h < num_row_groups ==> #[trigger] keep@[h]
                    == forall|k2: int| 0 <= k2 < k ==> #[trigger] filter_keeps(filters@[k2], bounds@[k2]@[h]),
            decreases num_row_groups - g,
        {
            if keep[g] {
                let b = &row_bounds[g];
                let keep_it = match (&b.min, &b.max) {
                    (Some(lo), Some(hi)) => could_match_range(filter.op, &filter.value, Some(lo), Some(hi)),
                    _ => true,
                };
                assert(keep_it == filter_keeps(filters@[k as int], bounds@[k as int]@[g as int]));
                if !keep_it {
                    keep.set(g, false);
                }
            }
            proof {
                let h = g as int;
                if keep@[h] {
                    assert forall|k2: int| 0 <= k2 <= k implies #[trigger] filter_keeps(filters@[k2], bounds@[k2]@[h]) by {
                        if k2 < k {
                        }
                    }
                }
            }
            g = g + 1;
        }
        k = k + 1;
    }
    let mut kept: Vec<usize> = Vec::new();
    let mut g: usize = 0;
    while g < num_row_groups
        invariant
            g <= num_row_groups,
            keep@.len() == num_row_groups,
            forall|h: int| 0 <= h < num_row_groups ==> #[trigger] keep@[h]
                == row_group_survives(filters@, bounds@, h),
            forall|j: int| 0 <= j < kept@.len() ==> #[trigger] kept@[j] < g && row_group_survives(filters@, bounds@, kept@[j] as int),
            forall|j: int, l: int| 0 <= j < l < kept@.len() ==> kept@[j] < kept@[l],
            forall|h: int| 0 <= h < g && row_group_survives(filters@, bounds@, h) ==> kept@.contains(h as usize),
        decreases num_row_groups - g,
    {
        let ghost old_kept = kept@;
        if keep[g] {
            kept.push(g);
            assert(kept@[kept@.len() - 1] == g);
        }
        proof {
            assert forall|h: int| 0 <= h < g + 1 && row_group_survives(filters@, bounds@, h) implies kept@.contains(h as usize) by {
                if h < g {
                    assert(old_kept.contains(h as usize));
                    let j = choose|j: int| 0 <= j < old_kept.len() && old_kept[j] == h as usize;
                    assert(kept@[j] == old_kept[j]);
                } else {
                    assert(keep@[h]);
                    assert(kept@[kept@.len() - 1] == g);
                }
            }
        }
        g = g + 1;
    }
    kept
}


#[verifier::external_type_specification]
#[verifier::external_body]
pub struct ExParquetMetaData(ParquetMetaData);

#[verifier::external_type_specification]
#[verifier::external_body]
pub struct ExSchema(Schema);

#[verifier::external_type_specification]
#[verifier::external_body]
pub struct ExSchemaDescriptor(SchemaDescriptor);

#[verifier::external_type_specification]
#[verifier::external_body]
pub struct ExStatisticsConverter<'a>(StatisticsConverter<'a>);

/// How many row groups a Parquet file's metadata describes.
pub uninterp spec fn row_group_count(metadata: ParquetMetaData) -> nat;

/// `ParquetMetaData::num_row_groups`.
#[verifier::external_body]
fn num_row_groups(metadata: &ParquetMetaData) -> (n: usize)
    ensures
        n == row_group_count(*metadata),
{
    metadata.num_row_groups()
}

/// One value of a statistics array, as its physical type holds it (a binary32/binary64
/// value as its bit pattern).
#[derive(Debug, Clone, Copy, PartialEq, Eq)]
pub enum StatisticsValue {
    /// The statistic is unknown.
    Null,
    Int8(i8),
    Int16(i16),
    Int32(i32),
    Int64(i64),
    UInt8(u8),
    UInt16(u16),
    UInt32(u32),
    Float32Bits(u32),
    Float64Bits(u64),
    Boolean(bool),
    /// A physical type whose statistics are not used for pruning (strings, whose
    /// min/max a writer may truncate, and every other type).
    Unsupported,
}

/// An Arrow array of per-row-group statistics (one value per row group).
#[verifier::external_body]
pub struct StatisticsArray {
    values: ArrayRef,
}

/// What a statistics array holds, one value per row group.
pub uninterp spec fn statistics_values(a: StatisticsArray) -> Seq<StatisticsValue>;

/// `Array::len`.
#[verifier::external_body]
fn statistics_len(a: &StatisticsArray) -> (n: usize)
    ensures
        n == statistics_values(*a).len(),
{
    a.values.len()
}

/// A signed-integer statistic.
pub open spec fn is_signed_statistic(v: StatisticsValue) -> bool {
    v is Int8 || v is Int16 || v is Int32 || v is Int64
}

/// An unsigned-integer statistic.
pub open spec fn is_unsigned_statistic(v: StatisticsValue) -> bool {
    v is UInt8 || v is UInt16 || v is UInt32
}

/// `Array::is_null(i)`: the statistic of row group `i` is unknown.
#[verifier::external_body]
fn statistics_is_null(a: &StatisticsArray, i: usize) -> (null: bool)
    requires
        i < statistics_values(*a).len(),
    ensures
        null == (statistics_values(*a)[i as int] is Null),
{
    a.values.is_null(i)
}

/// The `i`-th value of a signed-integer array (`as_primitive::<T>().value(i)`).
#[verifier::external_body]
fn signed_statistic(a: &StatisticsArray, i: usize) -> (r: Option<StatisticsValue>)
    requires
        i < statistics_values(*a).len(),
        !(statistics_values(*a)[i as int] is Null),
    ensures
        r == if is_signed_statistic(statistics_values(*a)[i as int]) {
            Some(statistics_values(*a)[i as int])
        } else {
            None
        },
{
    let v = &a.values;
    match v.data_type() {
        DataType::Int8 => Some(StatisticsValue::Int8(v.as_primitive::<Int8Type>().value(i))),
        DataType::Int16 => Some(StatisticsValue::Int16(v.as_primitive::<Int16Type>().value(i))),
        DataType::Int32 => Some(StatisticsValue::Int32(v.as_primitive::<Int32Type>().value(i))),
        DataType::Int64 => Some(StatisticsValue::Int64(v.as_primitive::<Int64Type>().value(i))),
        _ => None,
    }
}

/// The `i`-th value of an unsigned-integer array (`as_primitive::<T>().value(i)`).
#[verifier::external_body]
fn unsigned_statistic(a: &StatisticsArray, i: usize) -> (r: Option<StatisticsValue>)
    requires
        i < statistics_values(*a).len(),
        !(statistics_values(*a)[i as int] is Null),
    ensures
        r == if is_unsigned_statistic(statistics_values(*a)[i as int]) {
            Some(statistics_values(*a)[i as int])
        } else {
            None
        },
{
    let v = &a.values;
    match v.data_type() {
        DataType::UInt8 => Some(StatisticsValue::UInt8(v.as_primitive::<UInt8Type>().value(i))),
        DataType::UInt16 => Some(StatisticsValue::UInt16(v.as_primitive::<UInt16Type>().value(i))),
        DataType::UInt32 => Some(StatisticsValue::UInt32(v.as_primitive::<UInt32Type>().value(i))),
        _ => None,
    }
}

/// The `i`-th value of any other array: binary32/binary64 as bit patterns
/// (`value(i).to_bits()`), booleans (`as_boolean().value(i)`), or `Unsupported`.
#[verifier::external_body]
fn other_statistic(a: &StatisticsArray, i: usize) -> (r: StatisticsValue)
    requires
        i < statistics_values(*a).len(),
        !(statistics_values(*a)[i as int] is Null),
        !is_signed_statistic(statistics_values(*a)[i as int]),
        !is_unsigned_statistic(statistics_values(*a)[i as int]),
    ensures
        r == statistics_values(*a)[i as int],
{
    let v = &a.values;
    match v.data_type() {
        DataType::Float32 => StatisticsValue::Float32Bits(v.as_primitive::<Float32Type>().value(i).to_bits()),
        DataType::Float64 => StatisticsValue::Float64Bits(v.as_primitive::<Float64Type>().value(i).to_bits()),
        DataType::Boolean => StatisticsValue::Boolean(v.as_boolean().value(i)),
        _ => StatisticsValue::Unsupported,
    }
}

/// The statistic of row group `i`.
fn statistics_value(a: &StatisticsArray, i: usize) -> (v: StatisticsValue)
    requires
        i < statistics_values(*a).len(),
    ensures
        v == statistics_values(*a)[i as int],
{
    if statistics_is_null(a, i) {
        return StatisticsValue::Null;
    }
    if let Some(v) = signed_statistic(a, i) {
        return v;
    }
    if let Some(v) = unsigned_statistic(a, i) {
        return v;
    }
    other_statistic(a, i)
}

/// The converter `StatisticsConverter::try_new` builds for a column of these schemas (it is
/// a function of them: it looks the column up by name in both).
pub uninterp spec fn converter_for(
    column: Seq<char>,
    arrow_schema: Schema,
    parquet_schema: SchemaDescriptor,
) -> StatisticsConverter<'static>;

/// The names of an Arrow schema's top-level fields, in order.
pub uninterp spec fn arrow_field_names(schema: Schema) -> Seq<Seq<char>>;

/// `StatisticsConverter::try_new(column, arrow_schema, parquet_schema)`: the converter for
/// that column of those schemas; it fails exactly when no field of the Arrow schema has that
/// name.
#[verifier::external_body]
fn statistics_converter<'a>(
    column: &str,
    arrow_schema: &'a Schema,
    parquet_schema: &'a SchemaDescriptor,
) -> (r: Result<StatisticsConverter<'a>, ParquetError>)
    ensures
        r is Ok <==> arrow_field_names(*arrow_schema).contains(column@),
        r matches Ok(c) ==> c == converter_for(column@, *arrow_schema, *parquet_schema),
{
    StatisticsConverter::try_new(column, arrow_schema, parquet_schema)
}

/// The Parquet leaf column a converter reads statistics from (`None`: the column is not in
/// the Parquet schema, and the statistics are all unknown).
pub uninterp spec fn converter_leaf_index(converter: StatisticsConverter<'_>) -> Option<usize>;

/// `StatisticsConverter::parquet_column_index`.
#[verifier::external_body]
fn converter_parquet_column(converter: &StatisticsConverter<'_>) -> (r: Option<usize>)
    ensures
        r == converter_leaf_index(*converter),
{
    converter.parquet_column_index()
}

/// How many column chunks row group `g` of a file's metadata has.
pub uninterp spec fn row_group_column_count(metadata: ParquetMetaData, g: nat) -> nat;

/// `metadata.row_group(g).num_columns()`; `row_group` panics past the last row group.
#[verifier::external_body]
fn row_group_num_columns(metadata: &ParquetMetaData, g: usize) -> (n: usize)
    requires
        g < row_group_count(*metadata),
    ensures
        n == row_group_column_count(*metadata, g as nat),
{
    metadata.row_group(g).num_columns()
}

/// Every row group of the file has the column chunk a converter reads its statistics from
/// (reading them indexes each row group's chunks by the converter's leaf column).
pub open spec fn chunks_cover(metadata: ParquetMetaData, converter: StatisticsConverter<'_>) -> bool {
    converter_leaf_index(converter) matches Some(i)
        ==> forall|g: nat| g < row_group_count(metadata) ==> #[trigger] row_group_column_count(metadata, g) > i
}

/// The per-row-group minimum statistics a converter reads from a file's metadata, or `None`
/// when parquet cannot convert them.
pub uninterp spec fn converter_minima(converter: StatisticsConverter<'_>, metadata: ParquetMetaData) -> Option<Seq<StatisticsValue>>;

/// The per-row-group maximum statistics a converter reads from a file's metadata, or `None`
/// when parquet cannot convert them.
pub uninterp spec fn converter_maxima(converter: StatisticsConverter<'_>, metadata: ParquetMetaData) -> Option<Seq<StatisticsValue>>;

/// The per-row-group minimum statistics parquet reports for a column of a file.
pub open spec fn row_group_minima(
    column: Seq<char>,
    arrow_schema: Schema,
    parquet_schema: SchemaDescriptor,
    metadata: ParquetMetaData,
) -> Option<Seq<StatisticsValue>> {
    converter_minima(converter_for(column, arrow_schema, parquet_schema), metadata)
}

/// The per-row-group maximum statistics parquet reports for a column of a file.
pub open spec fn row_group_maxima(
    column: Seq<char>,
    arrow_schema: Schema,
    parquet_schema: SchemaDescriptor,
    metadata: ParquetMetaData,
) -> Option<Seq<StatisticsValue>> {
    converter_maxima(converter_for(column, arrow_schema, parquet_schema), metadata)
}

/// `StatisticsConverter::row_group_mins` over all row groups of the file: the column's
/// minima, one per row group. It indexes each row group's chunks by the converter's leaf
/// column, hence the `requires`.
#[verifier::external_body]
fn row_group_mins<'a>(converter: &StatisticsConverter<'a>, metadata: &'a ParquetMetaData) -> (r: Result<StatisticsArray, ParquetError>)
    requires
        chunks_cover(*metadata, *converter),
    ensures
        (r is Ok) == (converter_minima(*converter, *metadata) is Some),
        r matches Ok(a) ==> converter_minima(*converter, *metadata) == Some(statistics_values(a))
            && statistics_values(a).len() == row_group_count(*metadata),
{
    converter.row_group_mins(metadata.row_groups().iter()).map(|values| StatisticsArray { values })
}

/// `StatisticsConverter::row_group_maxes` over all row groups of the file: the column's
/// maxima, one per row group. It indexes each row group's chunks by the converter's leaf
/// column, hence the `requires`.
#[verifier::external_body]
fn row_group_maxes<'a>(converter: &StatisticsConverter<'a>, metadata: &'a ParquetMetaData) -> (r: Result<StatisticsArray, ParquetError>)
    requires
        chunks_cover(*metadata, *converter),
    ensures
        (r is Ok) == (converter_maxima(*converter, *metadata) is Some),
        r matches Ok(a) ==> converter_maxima(*converter, *metadata) == Some(statistics_values(a))
            && statistics_values(a).len() == row_group_count(*metadata),
{
    converter.row_group_maxes(metadata.row_groups().iter()).map(|values| StatisticsArray { values })
}

/// `s` is the filter scalar a statistics value stands for: integers widened to `Int64`,
/// binary32 widened to binary64, binary64 and booleans as they are, and nothing for an
/// unknown or untrusted statistic.
pub open spec fn represents_statistic(s: Option<ScalarValue>, v: StatisticsValue) -> bool {
    match v {
        StatisticsValue::Null => s is None,
        StatisticsValue::Unsupported => s is None,
        StatisticsValue::Int8(x) => s == Some(ScalarValue::Int64(x as i64)),
        StatisticsValue::Int16(x) => s == Some(ScalarValue::Int64(x as i64)),
        StatisticsValue::Int32(x) => s == Some(ScalarValue::Int64(x as i64)),
        StatisticsValue::Int64(x) => s == Some(ScalarValue::Int64(x)),
        StatisticsValue::UInt8(x) => s == Some(ScalarValue::Int64(x as i64)),
        StatisticsValue::UInt16(x) => s == Some(ScalarValue::Int64(x as i64)),
        StatisticsValue::UInt32(x) => s == Some(ScalarValue::Int64(x as i64)),
        StatisticsValue::Float32Bits(b) => s matches Some(ScalarValue::Float64(r))
            && is_nan_bits(r) == is_nan_bits_32(b)
            && (!is_nan_bits_32(b) ==> extended_value(r) == extended_value_32(b)),
        StatisticsValue::Float64Bits(b) => s == Some(ScalarValue::Float64(b)),
        StatisticsValue::Boolean(x) => s == Some(ScalarValue::Bool(x)),
    }
}

/// The filter scalar a statistics value stands for (see `represents_statistic`).
pub fn scalar_from_statistic(v: StatisticsValue) -> (s: Option<ScalarValue>)
    ensures
        represents_statistic(s, v),
{
    match v {
        StatisticsValue::Null => None,
        StatisticsValue::Unsupported => None,
        StatisticsValue::Int8(x) => Some(ScalarValue::Int64(x as i64)),
        StatisticsValue::Int16(x) => Some(ScalarValue::Int64(x as i64)),
        StatisticsValue::Int32(x) => Some(ScalarValue::Int64(x as i64)),
        StatisticsValue::Int64(x) => Some(ScalarValue::Int64(x)),
        StatisticsValue::UInt8(x) => Some(ScalarValue::Int64(x as i64)),
        StatisticsValue::UInt16(x) => Some(ScalarValue::Int64(x as i64)),
        StatisticsValue::UInt32(x) => Some(ScalarValue::Int64(x as i64)),
        StatisticsValue::Float32Bits(b) => Some(ScalarValue::Float64(f32_to_f64_bits(b))),
        StatisticsValue::Float64Bits(b) => Some(ScalarValue::Float64(b)),
        StatisticsValue::Boolean(x) => Some(ScalarValue::Bool(x)),
    }
}

/// A statistic becomes a filter scalar of the same value: an integer statistic (of any
/// width or signedness) an `Int64` of the same mathematical value, a binary32 or binary64
/// statistic a `Float64` of the same value (NaN exactly when it is NaN), and a boolean the
/// same boolean.
pub proof fn statistics_keep_their_value(s: Option<ScalarValue>, v: StatisticsValue)
    requires
        represents_statistic(s, v),
    ensures
        v matches StatisticsValue::Int8(x) ==> (s matches Some(ScalarValue::Int64(y)) && y as int == x as int),
        v matches StatisticsValue::Int16(x) ==> (s matches Some(ScalarValue::Int64(y)) && y as int == x as int),
        v matches StatisticsValue::Int32(x) ==> (s matches Some(ScalarValue::Int64(y)) && y as int == x as int),
        v matches StatisticsValue::Int64(x) ==> (s matches Some(ScalarValue::Int64(y)) && y as int == x as int),
        v matches StatisticsValue::UInt8(x) ==> (s matches Some(ScalarValue::Int64(y)) && y as int == x as int),
        v matches StatisticsValue::UInt16(x) ==> (s matches Some(ScalarValue::Int64(y)) && y as int == x as int),
        v matches StatisticsValue::UInt32(x) ==> (s matches Some(ScalarValue::Int64(y)) && y as int == x as int),
        v matches StatisticsValue::Float32Bits(b) ==> (s matches Some(ScalarValue::Float64(r))
            && is_nan_bits(r) == is_nan_bits_32(b) && (!is_nan_bits_32(b) ==> extended_value(r) == extended_value_32(b))),
        v matches StatisticsValue::Float64Bits(b) ==> (s matches Some(ScalarValue::Float64(r))
            && is_nan_bits(r) == is_nan_bits(b) && (!is_nan_bits(b) ==> extended_value(r) == extended_value(b))),
        v matches StatisticsValue::Boolean(x) ==> s == Some(ScalarValue::Bool(x)),
        (v is Null || v is Unsupported) ==> s is None,
{
}

/// A row group is never skipped on statistics that are unknown or not trusted for pruning
/// (string minima and maxima, which a writer may truncate): the filter keeps it, and the
/// exact row-level filter alone decides.
pub proof fn untrusted_statistics_never_prune(
    filter: FilterExpr,
    b: RowGroupBounds,
    min: StatisticsValue,
    max: StatisticsValue,
)
    requires
        represents_statistic(b.min, min),
        represents_statistic(b.max, max),
        min is Null || min is Unsupported || max is Null || max is Unsupported,
    ensures
        filter_keeps(filter, b),
{
}

/// Pair up the per-row-group minima and maxima as filter scalars.
fn bounds_from_statistics(mins: &StatisticsArray, maxes: &StatisticsArray, n: usize) -> (bounds: Vec<RowGroupBounds>)
    requires
        statistics_values(*mins).len() == n,
        statistics_values(*maxes).len() == n,
    ensures
        bounds@.len() == n,
        forall|g: int| 0 <= g < n ==> represents_statistic(#[trigger] bounds@[g].min, statistics_values(*mins)[g])
            && represents_statistic(bounds@[g].max, statistics_values(*maxes)[g]),
{
    let mut bounds: Vec<RowGroupBounds> = Vec::new();
    let mut g: usize = 0;
    while g < n
        invariant
            g <= n,
            statistics_values(*mins).len() == n,
            statistics_values(*maxes).len() == n,
            bounds@.len() == g,
            forall|h: int| 0 <= h < g ==> represents_statistic(#[trigger] bounds@[h].min, statistics_values(*mins)[h])
                && represents_statistic(bounds@[h].max, statistics_values(*maxes)[h]),
        decreases n - g,
    {
        let min = scalar_from_statistic(statistics_value(mins, g));
        let max = scalar_from_statistic(statistics_value(maxes, g));
        bounds.push(RowGroupBounds { min, max });
        g = g + 1;
    }
    bounds
}

/// The bounds stand for the file's own statistics: for filter `k` and row group `g`, the
/// minimum and maximum parquet reports for filter `k`'s column.
#[verifier::opaque]
pub open spec fn bounds_from_file_statistics(
    bounds: Seq<Vec<RowGroupBounds>>,
    filters: Seq<FilterExpr>,
    n: nat,
    arrow_schema: Schema,
    parquet_schema: SchemaDescriptor,
    metadata: ParquetMetaData,
) -> bool {
    forall|k: int, g: int| 0 <= k < filters.len() && 0 <= g < n ==> {
        &&& represents_statistic(#[trigger] bounds[k]@[g].min,
            row_group_minima(filters[k].column@, arrow_schema, parquet_schema, metadata)->0[g])
        &&& represents_statistic(bounds[k]@[g].max,
            row_group_maxima(filters[k].column@, arrow_schema, parquet_schema, metadata)->0[g])
    }
}

/// `kept` is what `select_row_groups` chooses among the file's row groups for these
/// filters, from the file's own column statistics.
pub open spec fn survivors_of_file(
    kept: Seq<usize>,
    filters: Seq<FilterExpr>,
    arrow_schema: Schema,
    parquet_schema: SchemaDescriptor,
    metadata: ParquetMetaData,
) -> bool {
    let n = row_group_count(metadata);
    exists|bounds: Seq<Vec<RowGroupBounds>>|
        #![trigger lists_survivors(kept, n, filters, bounds)]
        bounds_cover(filters, bounds, n) && lists_survivors(kept, n, filters, bounds)
            && bounds_from_file_statistics(bounds, filters, n, arrow_schema, parquet_schema, metadata)
}

/// Parquet can give a filter column's per-row-group minima and maxima: the Arrow schema has
/// a field of that name, every row group has the column chunk its statistics are read from,
/// and they convert.
pub open spec fn statistics_available(
    column: Seq<char>,
    arrow_schema: Schema,
    parquet_schema: SchemaDescriptor,
    metadata: ParquetMetaData,
) -> bool {
    &&& arrow_field_names(arrow_schema).contains(column)
    &&& chunks_cover(metadata, converter_for(column, arrow_schema, parquet_schema))
    &&& row_group_minima(column, arrow_schema, parquet_schema, metadata) is Some
    &&& row_group_maxima(column, arrow_schema, parquet_schema, metadata) is Some
}

/// Pruning these filters can be decided for this file: every filter column's statistics are
/// available (so, without filters, always).
pub open spec fn pruning_decidable(
    filters: Seq<FilterExpr>,
    arrow_schema: Schema,
    parquet_schema: SchemaDescriptor,
    metadata: ParquetMetaData,
) -> bool {
    forall|k: int| 0 <= k < filters.len()
        ==> statistics_available(#[trigger] filters[k].column@, arrow_schema, parquet_schema, metadata)
}

/// Filter `k` is the first whose column's statistics are not available.
pub open spec fn is_first_unavailable(
    filters: Seq<FilterExpr>,
    arrow_schema: Schema,
    parquet_schema: SchemaDescriptor,
    metadata: ParquetMetaData,
    k: int,
) -> bool {
    &&& 0 <= k < filters.len()
    &&& !statistics_available(filters[k].column@, arrow_schema, parquet_schema, metadata)
    &&& forall|j: int| 0 <= j < k ==> statistics_available(#[trigger] filters[j].column@, arrow_schema, parquet_schema, metadata)
}

/// The message of a row group without the column chunk statistics are read from.
pub open spec fn short_row_group_message(g: nat, columns: nat, leaf: nat) -> Seq<char> {
    "row group "@ + decimal(g) + " has "@ + decimal(columns) + " column chunks, too few to hold Parquet leaf column "@
        + decimal(leaf)
}

/// Row group `g` is the first one without a chunk for leaf column `leaf`.
pub open spec fn is_first_short_row_group(metadata: ParquetMetaData, leaf: nat, g: nat) -> bool {
    &&& g < row_group_count(metadata)
    &&& row_group_column_count(metadata, g) <= leaf
    &&& forall|h: nat| h < g ==> #[trigger] row_group_column_count(metadata, h) > leaf
}

/// How a filter whose column's statistics are unavailable is reported: when the column
/// exists but a row group lacks the chunk its statistics are read from, by an error naming
/// the first such row group (parquet itself would index past that row group's chunks);
/// otherwise by parquet's own error.
pub open spec fn unavailable_error(
    column: Seq<char>,
    arrow_schema: Schema,
    parquet_schema: SchemaDescriptor,
    metadata: ParquetMetaData,
    e: ParquetError,
) -> bool {
    let c = converter_for(column, arrow_schema, parquet_schema);
    arrow_field_names(arrow_schema).contains(column) && !chunks_cover(metadata, c) ==> exists|g: nat|
        #[trigger] is_first_short_row_group(metadata, converter_leaf_index(c)->0 as nat, g)
            && general_error_text(e) == Some(short_row_group_message(
                g, row_group_column_count(metadata, g), converter_leaf_index(c)->0 as nat))
}

/// Decide, for each row group of a Parquet file, whether it might contain a row matching
/// every (AND-combined) filter, from the row groups' own column statistics; returns the
/// indices of the row groups to read, in order.
///
/// It succeeds exactly when every filter column's statistics are available (see
/// `statistics_available`); otherwise the first filter whose are not is reported (see
/// `unavailable_error`). Without filters nothing is read, and every row group is kept.
pub fn surviving_row_groups(
    metadata: &ParquetMetaData,
    arrow_schema: &Schema,
    parquet_schema: &SchemaDescriptor,
    filters: &[FilterExpr],
) -> (r: Result<Vec<usize>, ParquetError>)
    ensures
        r is Ok <==> pruning_decidable(filters@, *arrow_schema, *parquet_schema, *metadata),
        r matches Ok(kept) ==> survivors_of_file(kept@, filters@, *arrow_schema, *parquet_schema, *metadata),
        r matches Err(e) ==> exists|k: int| #[trigger] is_first_unavailable(filters@, *arrow_schema, *parquet_schema, *metadata, k)
            && unavailable_error(filters@[k].column@, *arrow_schema, *parquet_schema, *metadata, e),
{
    let n = num_row_groups(metadata);
    let mut all_bounds: Vec<Vec<RowGroupBounds>> = Vec::new();
    let mut k: usize = 0;
    while k < filters.len()
        invariant
            k <= filters@.len(),
            n == row_group_count(*metadata),
            forall|j: int| 0 <= j < k ==> statistics_available(#[trigger] filters@[j].column@, *arrow_schema, *parquet_schema, *metadata),
            all_bounds@.len() == k,
            forall|j: int| 0 <= j < k ==> #[trigger] all_bounds@[j]@.len() == n,
            forall|j: int, g: int| 0 <= j < k && 0 <= g < n ==> {
                &&& represents_statistic(#[trigger] all_bounds@[j]@[g].min,
                    row_group_minima(filters@[j].column@, *arrow_schema, *parquet_schema, *metadata)->0[g])
                &&& represents_statistic(all_bounds@[j]@[g].max,
                    row_group_maxima(filters@[j].column@, *arrow_schema, *parquet_schema, *metadata)->0[g])
            },
        decreases filters.len() - k,
    {
        let ghost column = filters@[k as int].column@;
        let converter = match statistics_converter(filters[k].column.as_str(), arrow_schema, parquet_schema) {
            Ok(c) => c,
            Err(e) => {
                assert(is_first_unavailable(filters@, *arrow_schema, *parquet_schema, *metadata, k as int));
                return Err(e);
            },
        };
        if let Some(leaf) = converter_parquet_column(&converter) {
            let mut g: usize = 0;
            while g < n
                invariant
                    g <= n,
                    n == row_group_count(*metadata),
                    k < filters@.len(),
                    column == filters@[k as int].column@,
                    converter == converter_for(column, *arrow_schema, *parquet_schema),
                    arrow_field_names(*arrow_schema).contains(column),
                    forall|j: int| 0 <= j < k ==> statistics_available(#[trigger] filters@[j].column@, *arrow_schema, *parquet_schema, *metadata),
                    converter_leaf_index(converter) == Some(leaf),
                    forall|h: nat| h < g ==> #[trigger] row_group_column_count(*metadata, h) > leaf,
                decreases n - g,
            {
                let columns = row_group_num_columns(metadata, g);
                if columns <= leaf {
                    let mut message = String::from_str("row group ");
                    push_decimal(&mut message, g);
                    message.append(" has ");
                    push_decimal(&mut message, columns);
                    message.append(" column chunks, too few to hold Parquet leaf column ");
                    push_decimal(&mut message, leaf);
                    let e = general_error(message);
                    proof {
                        assert(is_first_short_row_group(*metadata, leaf as nat, g as nat));
                        assert(!chunks_cover(*metadata, converter)) by {
                            assert(row_group_column_count(*metadata, g as nat) <= leaf);
                        }
                        assert(is_first_unavailable(filters@, *arrow_schema, *parquet_schema, *metadata, k as int));
                        assert(unavailable_error(column, *arrow_schema, *parquet_schema, *metadata, e));
                    }
                    return Err(e);
                }
                g = g + 1;
            }
        }
        let mins = match row_group_mins(&converter, metadata) {
            Ok(a) => a,
            Err(e) => {
                assert(is_first_unavailable(filters@, *arrow_schema, *parquet_schema, *metadata, k as int));
                return Err(e);
            },
        };
        let maxes = match row_group_maxes(&converter, metadata) {
            Ok(a) => a,
            Err(e) => {
                assert(is_first_unavailable(filters@, *arrow_schema, *parquet_schema, *metadata, k as int));
                return Err(e);
            },
        };
        all_bounds.push(bounds_from_statistics(&mins, &maxes, n));
        k = k + 1;
    }
    assert(bounds_cover(filters@, all_bounds@, n as nat));
    let kept = select_row_groups(n, filters, &all_bounds);
    assert(lists_survivors(kept@, row_group_count(*metadata), filters@, all_bounds@));
    assert(bounds_from_file_statistics(all_bounds@, filters@, n as nat, *arrow_schema, *parquet_schema, *metadata)) by {
        reveal(bounds_from_file_statistics);
    }
    Ok(kept)
}


/// Two optional scalars a filter cannot tell apart: equal, or binary64 values that are both
/// NaN or have the same value (the widened binary32 statistic is pinned only so far).
spec fn indistinguishable(a: Option<ScalarValue>, b: Option<ScalarValue>) -> bool {
    ||| a == b
    ||| (a matches Some(ScalarValue::Float64(x)) && b matches Some(ScalarValue::Float64(y))
        && is_nan_bits(x) == is_nan_bits(y) && (!is_nan_bits(x) ==> extended_value(x) == extended_value(y)))
}

/// Two representations of one statistic are indistinguishable.
proof fn lemma_representations_indistinguishable(s1: Option<ScalarValue>, s2: Option<ScalarValue>, v: StatisticsValue)
    requires
        represents_statistic(s1, v),
        represents_statistic(s2, v),
    ensures
        indistinguishable(s1, s2),
{
}

/// Comparisons cannot tell indistinguishable scalars apart.
proof fn lemma_indistinguishable_compare(x: ScalarValue, x2: ScalarValue, y: ScalarValue)
    requires
        indistinguishable(Some(x), Some(x2)),
    ensures
        scalar_comparison(x, y) == scalar_comparison(x2, y),
        scalar_comparison(y, x) == scalar_comparison(y, x2),
{
}

/// A filter keeps row groups with indistinguishable bounds alike.
proof fn lemma_filter_keeps_indistinguishable(filter: FilterExpr, b1: RowGroupBounds, b2: RowGroupBounds)
    requires
        indistinguishable(b1.min, b2.min),
        indistinguishable(b1.max, b2.max),
    ensures
        filter_keeps(filter, b1) == filter_keeps(filter, b2),
{
    if b1.min is Some && b1.max is Some && b2.min is Some && b2.max is Some {
        let (lo1, hi1, lo2, hi2) = (b1.min->0, b1.max->0, b2.min->0, b2.max->0);
        lemma_indistinguishable_compare(lo1, lo2, filter.value);
        lemma_indistinguishable_compare(hi1, hi2, filter.value);
        lemma_indistinguishable_compare(lo1, lo2, hi1);
        lemma_indistinguishable_compare(hi1, hi2, lo2);
    }
}

/// Whether row group `g` survives one filter list, read off the file's statistics whatever
/// bounds stand for them.
proof fn lemma_survival_follows_statistics(
    fa: Seq<FilterExpr>,
    ba: Seq<Vec<RowGroupBounds>>,
    fb: Seq<FilterExpr>,
    bb: Seq<Vec<RowGroupBounds>>,
    offset: int,
    n: nat,
    arrow_schema: Schema,
    parquet_schema: SchemaDescriptor,
    metadata: ParquetMetaData,
    g: int,
)
    requires
        0 <= g < n,
        0 <= offset,
        offset + fb.len() <= fa.len(),
        forall|k: int| 0 <= k < fb.len() ==> #[trigger] fb[k] == fa[k + offset],
        bounds_cover(fa, ba, n),
        bounds_cover(fb, bb, n),
        bounds_from_file_statistics(ba, fa, n, arrow_schema, parquet_schema, metadata),
        bounds_from_file_statistics(bb, fb, n, arrow_schema, parquet_schema, metadata),
    ensures
        forall|k: int| 0 <= k < fb.len() ==>
            #[trigger] filter_keeps(fb[k], bb[k]@[g]) == filter_keeps(fa[k + offset], ba[k + offset]@[g]),
{
    reveal(bounds_from_file_statistics);
    assert forall|k: int| 0 <= k < fb.len() implies
        #[trigger] filter_keeps(fb[k], bb[k]@[g]) == filter_keeps(fa[k + offset], ba[k + offset]@[g]) by {
        let j = k + offset;
        let col = fb[k].column@;
        let ja = ba[j]@[g];
        let kb = bb[k]@[g];
        assert(represents_statistic(kb.min, row_group_minima(col, arrow_schema, parquet_schema, metadata)->0[g]));
        assert(represents_statistic(ja.min, row_group_minima(col, arrow_schema, parquet_schema, metadata)->0[g]));
        lemma_representations_indistinguishable(kb.min, ja.min, row_group_minima(col, arrow_schema, parquet_schema, metadata)->0[g]);
        lemma_representations_indistinguishable(kb.max, ja.max, row_group_maxima(col, arrow_schema, parquet_schema, metadata)->0[g]);
        lemma_filter_keeps_indistinguishable(fb[k], kb, ja);
    }
}

/// A listed survivor is exactly a surviving row group.
proof fn lemma_listed_exactly_survivors(kept: Seq<usize>, n: nat, filters: Seq<FilterExpr>, bounds: Seq<Vec<RowGroupBounds>>, g: usize)
    requires
        lists_survivors(kept, n, filters, bounds),
    ensures
        kept.contains(g) <==> (g < n && row_group_survives(filters, bounds, g as int)),
{
    if kept.contains(g) {
        let j = choose|j: int| 0 <= j < kept.len() && kept[j] == g;
        assert(kept[j] < n && row_group_survives(filters, bounds, kept[j] as int));
    }
}

/// A row group survives two lists together exactly when it survives each.
proof fn lemma_combined_survival(
    filters1: Seq<FilterExpr>,
    b1: Seq<Vec<RowGroupBounds>>,
    filters2: Seq<FilterExpr>,
    b2: Seq<Vec<RowGroupBounds>>,
    b: Seq<Vec<RowGroupBounds>>,
    n: nat,
    arrow_schema: Schema,
    parquet_schema: SchemaDescriptor,
    metadata: ParquetMetaData,
    g: int,
)
    requires
        0 <= g < n,
        bounds_cover(filters1, b1, n),
        bounds_cover(filters2, b2, n),
        bounds_cover(filters1 + filters2, b, n),
        bounds_from_file_statistics(b1, filters1, n, arrow_schema, parquet_schema, metadata),
        bounds_from_file_statistics(b2, filters2, n, arrow_schema, parquet_schema, metadata),
        bounds_from_file_statistics(b, filters1 + filters2, n, arrow_schema, parquet_schema, metadata),
    ensures
        row_group_survives(filters1 + filters2, b, g)
            <==> row_group_survives(filters1, b1, g) && row_group_survives(filters2, b2, g),
{
    let f = filters1 + filters2;
    let len1 = filters1.len() as int;
    assert forall|k: int| 0 <= k < filters1.len() implies #[trigger] filters1[k] == f[k + 0] by {}
    assert forall|k: int| 0 <= k < filters2.len() implies #[trigger] filters2[k] == f[k + len1] by {}
    lemma_survival_follows_statistics(f, b, filters1, b1, 0, n, arrow_schema, parquet_schema, metadata, g);
    lemma_survival_follows_statistics(f, b, filters2, b2, len1, n, arrow_schema, parquet_schema, metadata, g);
    if row_group_survives(filters1, b1, g) && row_group_survives(filters2, b2, g) {
        assert forall|k: int| 0 <= k < f.len() implies #[trigger] filter_keeps(f[k], b[k]@[g]) by {
            if k < len1 {
                assert(filter_keeps(filters1[k], b1[k]@[g]));
                assert(filter_keeps(filters1[k], b1[k]@[g]) == filter_keeps(f[k + 0], b[k + 0]@[g]));
            } else {
                let k2 = k - len1;
                assert(filter_keeps(filters2[k2], b2[k2]@[g]));
                assert(filter_keeps(filters2[k2], b2[k2]@[g]) == filter_keeps(f[k2 + len1], b[k2 + len1]@[g]));
            }
        }
    }
    if row_group_survives(f, b, g) {
        assert forall|k: int| 0 <= k < filters1.len() implies #[trigger] filter_keeps(filters1[k], b1[k]@[g]) by {
            assert(filter_keeps(filters1[k], b1[k]@[g]) == filter_keeps(f[k + 0], b[k + 0]@[g]));
            assert(filter_keeps(f[k], b[k]@[g]));
        }
        assert forall|k: int| 0 <= k < filters2.len() implies #[trigger] filter_keeps(filters2[k], b2[k]@[g]) by {
            assert(filter_keeps(filters2[k], b2[k]@[g]) == filter_keeps(f[k + len1], b[k + len1]@[g]));
            assert(filter_keeps(f[k + len1], b[k + len1]@[g]));
        }
    }
}

/// AND-combined filter lists combine: the row groups kept for the filters of two lists
/// together are exactly those kept for each list alone (so neither filter order nor
/// splitting a list changes what is read).
pub proof fn anded_filter_lists_combine(
    kept1: Seq<usize>,
    filters1: Seq<FilterExpr>,
    kept2: Seq<usize>,
    filters2: Seq<FilterExpr>,
    kept: Seq<usize>,
    arrow_schema: Schema,
    parquet_schema: SchemaDescriptor,
    metadata: ParquetMetaData,
)
    requires
        survivors_of_file(kept1, filters1, arrow_schema, parquet_schema, metadata),
        survivors_of_file(kept2, filters2, arrow_schema, parquet_schema, metadata),
        survivors_of_file(kept, filters1 + filters2, arrow_schema, parquet_schema, metadata),
    ensures
        forall|g: usize| kept.contains(g) <==> kept1.contains(g) && kept2.contains(g),
{
    let n = row_group_count(metadata);
    let f = filters1 + filters2;
    let b1 = choose|b: Seq<Vec<RowGroupBounds>>| bounds_cover(filters1, b, n) && lists_survivors(kept1, n, filters1, b)
        && bounds_from_file_statistics(b, filters1, n, arrow_schema, parquet_schema, metadata);
    let b2 = choose|b: Seq<Vec<RowGroupBounds>>| bounds_cover(filters2, b, n) && lists_survivors(kept2, n, filters2, b)
        && bounds_from_file_statistics(b, filters2, n, arrow_schema, parquet_schema, metadata);
    let b = choose|b: Seq<Vec<RowGroupBounds>>| bounds_cover(f, b, n) && lists_survivors(kept, n, f, b)
        && bounds_from_file_statistics(b, f, n, arrow_schema, parquet_schema, metadata);
    assert forall|g: usize| kept.contains(g) <==> kept1.contains(g) && kept2.contains(g) by {
        lemma_listed_exactly_survivors(kept, n, f, b, g);
        lemma_listed_exactly_survivors(kept1, n, filters1, b1, g);
        lemma_listed_exactly_survivors(kept2, n, filters2, b2, g);
        if (g as int) < n {
            lemma_combined_survival(filters1, b1, filters2, b2, b, n, arrow_schema, parquet_schema, metadata, g as int);
        }
    }
}


/// Pruning two filter lists together can be decided whenever it can for each list alone
/// (so `surviving_row_groups` then succeeds on the combined list).
pub proof fn anded_filter_lists_are_decidable_together(
    filters1: Seq<FilterExpr>,
    filters2: Seq<FilterExpr>,
    arrow_schema: Schema,
    parquet_schema: SchemaDescriptor,
    metadata: ParquetMetaData,
)
    requires
        pruning_decidable(filters1, arrow_schema, parquet_schema, metadata),
        pruning_decidable(filters2, arrow_schema, parquet_schema, metadata),
    ensures
        pruning_decidable(filters1 + filters2, arrow_schema, parquet_schema, metadata),
{
    let f = filters1 + filters2;
    let len1 = filters1.len() as int;
    assert forall|k: int| 0 <= k < f.len() implies
        statistics_available(#[trigger] f[k].column@, arrow_schema, parquet_schema, metadata) by {
        if k < len1 {
            assert(f[k] == filters1[k]);
        } else {
            assert(f[k] == filters2[k - len1]);
        }
    }
}

/// `p` is the first position of a field named `name` (fields are found by name, first match).
pub open spec fn is_first_position(names: Seq<String>, name: Seq<char>, p: int) -> bool {
    &&& 0 <= p < names.len()
    &&& names[p]@ == name
    &&& forall|q: int| 0 <= q < p ==> #[trigger] names[q]@ != name
}

/// Some field is named `name`.
pub open spec fn has_field(names: Seq<String>, name: Seq<char>) -> bool {
    exists|q: int| 0 <= q < names.len() && #[trigger] names[q]@ == name
}

/// The position of the first field named `name`, as `Schema::index_of` finds it.
pub fn field_position(field_names: &[String], name: &str) -> (r: Option<usize>)
    ensures
        match r {
            Some(p) => is_first_position(field_names@, name@, p as int),
            None => !has_field(field_names@, name@),
        },
{
    let mut q: usize = 0;
    while q < field_names.len()
        invariant
            q <= field_names@.len(),
            forall|j: int| 0 <= j < q ==> #[trigger] field_names@[j]@ != name@,
        decreases field_names.len() - q,
    {
        if str_equals(field_names[q].as_str(), name) {
            return Some(q);
        }
        q = q + 1;
    }
    None
}

/// The positions, among a decoded batch's fields, of the requested columns in the requested
/// order (a projection keeps the file's order, so the batch is reordered by these); a
/// requested column that no field has is reported by its index.
pub fn projection_indices(field_names: &[String], columns: &[String]) -> (r: Result<Vec<usize>, usize>)
    ensures
        r is Ok <==> forall|i: int| 0 <= i < columns@.len() ==> has_field(field_names@, #[trigger] columns@[i]@),
        r matches Ok(v) ==> v@.len() == columns@.len()
            && forall|i: int| 0 <= i < columns@.len() ==> is_first_position(field_names@, #[trigger] columns@[i]@, v@[i] as int),
        r matches Err(i) ==> i < columns@.len() && !has_field(field_names@, columns@[i as int]@)
            && forall|j: int| 0 <= j < i ==> has_field(field_names@, #[trigger] columns@[j]@),
{
    let mut v: Vec<usize> = Vec::new();
    let mut i: usize = 0;
    while i < columns.len()
        invariant
            i <= columns@.len(),
            v@.len() == i,
            forall|j: int| 0 <= j < i ==> is_first_position(field_names@, #[trigger] columns@[j]@, v@[j] as int),
        decreases columns.len() - i,
    {
        match field_position(field_names, columns[i].as_str()) {
            Some(p) => v.push(p),
            None => {
                assert forall|j: int| 0 <= j < i implies has_field(field_names@, #[trigger] columns@[j]@) by {
                    assert(field_names@[v@[j] as int]@ == columns@[j]@);
                }
                return Err(i);
            },
        }
        i = i + 1;
    }
    assert forall|j: int| 0 <= j < columns@.len() implies has_field(field_names@, #[trigger] columns@[j]@) by {
        assert(field_names@[v@[j] as int]@ == columns@[j]@);
    }
    Ok(v)
}


/// Why reading several Parquet files as one table failed.
#[derive(Debug)]
pub enum MultiParquetReadError {
    /// Two files' schemas disagree: the first file, the first disagreeing file, and the first
    /// disagreeing column.
    SchemaMismatch { first_file: String, other_file: String, column: String },
    /// A file failed to open or parse.
    Read { path: String, source: ParquetError },
}

/// A file's schema must agree with the first file's, field by field (never a silent union):
/// the first disagreeing column is reported with both file names.
pub fn check_schema_agreement(
    first_file: &str,
    first_schema: &[FieldSummary],
    other_file: &str,
    schema: &[FieldSummary],
) -> (r: Result<(), MultiParquetReadError>)
    ensures
        match (r, first_mismatch_from(first_schema@, schema@, 0)) {
            (Ok(()), None) => true,
            (Err(MultiParquetReadError::SchemaMismatch { first_file: f, other_file: o, column }), Some(i)) =>
                f@ == first_file@ && o@ == other_file@ && column@ == if i < first_schema@.len() {
                    first_schema@[i].name@
                } else {
                    schema@[i].name@
                },
            _ => false,
        },
{
    match first_schema_mismatch(first_schema, schema) {
        None => Ok(()),
        Some(column) => Err(MultiParquetReadError::SchemaMismatch {
            first_file: first_file.to_owned(),
            other_file: other_file.to_owned(),
            column,
        }),
    }
}

/// `ParquetError`'s `Display` text: `Parquet error: {m}`, `NYI: {m}`, `EOF: {m}`,
/// `Arrow: {m}` and `Index {i} out of bound: {b}` for the variants whose fields fix it (see
/// `parquet_error_message`). The other variants' text is not stated: for a wrapped I/O error
/// it is the operating system's message, which depends on the machine.
#[verifier::external_body]
fn parquet_error_text(e: &ParquetError) -> (s: String)
    ensures
        parquet_error_message(*e) matches Some(t) ==> s@ == t,
{
    e.to_string()
}

impl MultiParquetReadError {
    /// The `PydartError` a failed multi-file read is reported as: a schema mismatch with the
    /// same three names, or a read error naming the file (with the parquet error's text).
    pub fn into_pydart_error(self) -> (e: PydartError)
        ensures
            match self {
                MultiParquetReadError::SchemaMismatch { first_file, other_file, column } =>
                    e == PydartError::ParquetSchemaMismatch { first_file, other_file, column },
                MultiParquetReadError::Read { path, source } =>
                    e matches PydartError::ParquetReadError { path: p, reason } && p == path
                        && (parquet_error_message(source) matches Some(t) ==> reason@ == t),
            },
    {
        match self {
            MultiParquetReadError::SchemaMismatch { first_file, other_file, column } =>
                PydartError::ParquetSchemaMismatch { first_file, other_file, column },
            MultiParquetReadError::Read { path, source } =>
                PydartError::ParquetReadError { path, reason: parquet_error_text(&source) },
        }
    }
}


/// Row `row` (its value in each filter's column, in filter order) could lie in row group `g`
/// and satisfies filter `k`: the row group's bounds for that column are missing, or they hold
/// the value and the value satisfies the filter.
pub open spec fn row_fits_filter(filter: FilterExpr, b: RowGroupBounds, value: ScalarValue) -> bool {
    match (b.min, b.max) {
        (Some(lo), Some(hi)) => (same_order_domain(filter.value, lo, hi, value) || same_column_type(lo, hi, value))
            && within_range(value, lo, hi)
            && (scalar_comparison(value, filter.value) matches Some(c) && op_holds(filter.op, c)),
        _ => true,
    }
}

/// Pruning never skips a row group that may hold a matching row: if a row's values lie within
/// the row group's statistics and satisfy every filter, the row group is among those kept.
pub proof fn row_groups_holding_a_match_are_kept(
    n: nat,
    filters: Seq<FilterExpr>,
    bounds: Seq<Vec<RowGroupBounds>>,
    kept: Seq<usize>,
    g: int,
    row: Seq<ScalarValue>,
)
    requires
        bounds_cover(filters, bounds, n),
        lists_survivors(kept, n, filters, bounds),
        0 <= g < n,
        row.len() == filters.len(),
        forall|k: int| 0 <= k < filters.len() ==> #[trigger] row_fits_filter(filters[k], bounds[k]@[g], row[k]),
    ensures
        kept.contains(g as usize),
{
    assert forall|k: int| 0 <= k < filters.len() implies #[trigger] filter_keeps(filters[k], bounds[k]@[g]) by {
        assert(row_fits_filter(filters[k], bounds[k]@[g], row[k]));
        let b = bounds[k]@[g];
        if b.min is Some && b.max is Some {
            pruning_keeps_every_possible_match(filters[k].op, filters[k].value, b.min->0, b.max->0, row[k]);
        }
    }
    assert(row_group_survives(filters, bounds, g));
}

} // verus!
