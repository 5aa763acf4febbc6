//! The checks `Table.from_parquet` makes of its arguments: filter operators, and the
//! files a `path` argument resolves to.

use vstd::prelude::*;
use crate::error::PydartError;
use crate::ieee754::Comparison;
use crate::parquet_filter::{Op, ScalarValue};
use crate::format::{debug_quote, debug_quoted};
use crate::text::{
    compare_byte_slices, compare_bytes, flip, lemma_compare_bytes_equal, lemma_compare_bytes_flip,
    lemma_compare_bytes_transitive, str_equals,
};

verus! {

/// The operator a filter tuple's operator string names, if any.
pub open spec fn op_named(operator: Seq<char>) -> Option<Op> {
    if operator == "=="@ {
        Some(Op::Eq)
    } else if operator == "!="@ {
        Some(Op::Ne)
    } else if operator == "<"@ {
        Some(Op::Lt)
    } else if operator == "<="@ {
        Some(Op::Le)
    } else if operator == ">"@ {
        Some(Op::Gt)
    } else if operator == ">="@ {
        Some(Op::Ge)
    } else {
        None
    }
}

/// Map a `filters=[(column, operator, value), ...]` operator string to its `Op`; any other
/// string is a `PydartError::UnsupportedFilterOperator` naming the column and operator.
pub fn parse_filter_operator(column: &str, operator: &str) -> (r: Result<Op, PydartError>)
    ensures
        match (r, op_named(operator@)) {
            (Ok(op), Some(o)) => op == o,
            (Err(e), None) => e matches PydartError::UnsupportedFilterOperator { column: c, operator: o }
                && c@ == column@ && o@ == operator@,
            _ => false,
        },
{
    if str_equals(operator, "==") {
        Ok(Op::Eq)
    } else if str_equals(operator, "!=") {
        Ok(Op::Ne)
    } else if str_equals(operator, "<") {
        Ok(Op::Lt)
    } else if str_equals(operator, "<=") {
        Ok(Op::Le)
    } else if str_equals(operator, ">") {
        Ok(Op::Gt)
    } else if str_equals(operator, ">=") {
        Ok(Op::Ge)
    } else {
        Err(PydartError::UnsupportedFilterOperator { column: column.to_owned(), operator: operator.to_owned() })
    }
}


/// What `from_parquet` reads of a filter tuple's Python value: the result of each of its
/// extractions (as `bool`, as `i64`, as `f64`, held by its bit pattern, and as `str`), and the
/// name of its Python type.
#[derive(Debug, Clone)]
pub struct PythonFilterValue {
    pub as_bool: Option<bool>,
    pub as_int: Option<i64>,
    pub as_float_bits: Option<u64>,
    pub as_str: Option<String>,
    pub class_name: String,
}

/// The message of a filter value of no supported type.
pub open spec fn unsupported_value_message(class_name: Seq<char>) -> Seq<char> {
    "unsupported filter value type "@ + debug_quoted(class_name) + ": expected int, float, bool, or str"@
}

/// The scalar a filter value stands for, trying `bool` first (a Python `bool` is also an
/// `int`), then `int`, `float` and `str`.
pub open spec fn filter_scalar(v: PythonFilterValue) -> Option<ScalarValue> {
    if v.as_bool is Some {
        Some(ScalarValue::Bool(v.as_bool->0))
    } else if v.as_int is Some {
        Some(ScalarValue::Int64(v.as_int->0))
    } else if v.as_float_bits is Some {
        Some(ScalarValue::Float64(v.as_float_bits->0))
    } else if v.as_str is Some {
        Some(ScalarValue::Utf8(v.as_str->0))
    } else {
        None
    }
}

/// A filter tuple's value as a `ScalarValue`; a value that is none of `bool`, `int`, `float`
/// and `str` is a `PydartError::Other` naming its type.
pub fn parse_filter_value(value: PythonFilterValue) -> (r: Result<ScalarValue, PydartError>)
    ensures
        match (r, filter_scalar(value)) {
            (Ok(s), Some(t)) => s == t,
            (Err(e), None) => e matches PydartError::Other(m) && m@ == unsupported_value_message(value.class_name@),
            _ => false,
        },
{
    if let Some(b) = value.as_bool {
        return Ok(ScalarValue::Bool(b));
    }
    if let Some(i) = value.as_int {
        return Ok(ScalarValue::Int64(i));
    }
    if let Some(f) = value.as_float_bits {
        return Ok(ScalarValue::Float64(f));
    }
    if let Some(s) = value.as_str {
        return Ok(ScalarValue::Utf8(s));
    }
    let mut m = String::from_str("unsupported filter value type ");
    let quoted = debug_quote(value.class_name.as_str());
    m.append(quoted.as_str());
    m.append(": expected int, float, bool, or str");
    Err(PydartError::Other(m))
}


/// What `from_parquet` reads of one entry of a directory passed as its `path`: the entry's
/// file name (its OS-encoded bytes), whether it is a regular file, and whether its
/// extension is `parquet`.
#[derive(Debug, Clone)]
pub struct DirectoryEntry {
    pub file_name: Vec<u8>,
    pub is_file: bool,
    pub has_parquet_extension: bool,
}

/// A `.parquet` file of the directory.
pub open spec fn is_parquet_file(e: DirectoryEntry) -> bool {
    e.is_file && e.has_parquet_extension
}

/// Entries of one directory order as their paths do: by file name, byte-wise.
pub open spec fn name_order(a: DirectoryEntry, b: DirectoryEntry) -> Comparison {
    compare_bytes(a.file_name@, b.file_name@)
}

/// `order` lists the indices of exactly the directory's `.parquet` files, each once, sorted
/// by file name.
pub open spec fn lists_parquet_files_in_order(order: Seq<usize>, entries: Seq<DirectoryEntry>) -> bool {
    &&& forall|j: int| 0 <= j < order.len() ==> #[trigger] order[j] < entries.len() && is_parquet_file(entries[order[j] as int])
    &&& forall|j: int, l: int| 0 <= j < l < order.len() ==> order[j] != order[l]
    &&& forall|i: int| 0 <= i < entries.len() && is_parquet_file(#[trigger] entries[i]) ==> order.contains(i as usize)
    &&& forall|j: int, l: int| 0 <= j < l < order.len()
        ==> name_order(entries[order[j] as int], entries[order[l] as int]) != Comparison::Greater
}

/// The message of an empty directory.
pub open spec fn empty_directory_message(directory_debug: Seq<char>) -> Seq<char> {
    "directory "@ + directory_debug + " contains no .parquet files"@
}

/// The `.parquet` files of a directory, in file-name order; a directory without any is a
/// `PydartError::InvalidParquetPathArgument` (`directory_debug` is the directory path as
/// `{:?}` prints it).
pub fn select_directory_parquet_files(directory_debug: &str, entries: &[DirectoryEntry]) -> (r: Result<Vec<usize>, PydartError>)
    ensures
        match r {
            Ok(order) => lists_parquet_files_in_order(order@, entries@) && order@.len() > 0,
            Err(e) => (forall|i: int| 0 <= i < entries@.len() ==> !is_parquet_file(#[trigger] entries@[i]))
                && (e matches PydartError::InvalidParquetPathArgument(m)
                && m@ == empty_directory_message(directory_debug@)),
        },
{
    let mut order: Vec<usize> = Vec::new();
    let mut i: usize = 0;
    while i < entries.len()
        invariant
            i <= entries@.len(),
            forall|j: int| 0 <= j < order@.len() ==> #[trigger] order@[j] < i && is_parquet_file(entries@[order@[j] as int]),
            forall|j: int, l: int| 0 <= j < l < order@.len() ==> order@[j] != order@[l],
            forall|h: int| 0 <= h < i && is_parquet_file(#[trigger] entries@[h]) ==> order@.contains(h as usize),
            forall|j: int, l: int| 0 <= j < l < order@.len()
                ==> name_order(entries@[order@[j] as int], entries@[order@[l] as int]) != Comparison::Greater,
        decreases entries.len() - i,
    {
        let entry = &entries[i];
        if entry.is_file && entry.has_parquet_extension {
            let mut p: usize = 0;
            while p < order.len()
                && !matches!(compare_byte_slices(entries[order[p]].file_name.as_slice(), entry.file_name.as_slice()), Comparison::Greater)
                invariant
                    p <= order@.len(),
                    i < entries@.len(),
                    *entry == entries@[i as int],
                    forall|j: int| 0 <= j < order@.len() ==> #[trigger] order@[j] < i && is_parquet_file(entries@[order@[j] as int]),
                    forall|j: int| 0 <= j < p ==> name_order(entries@[#[trigger] order@[j] as int], entries@[i as int]) != Comparison::Greater,
                decreases order@.len() - p,
            {
                p = p + 1;
            }
            let ghost old_order = order@;
            proof {
                // Every entry from `p` on orders strictly after the new one.
                assert forall|l: int| p <= l < old_order.len() implies
                    #[trigger] name_order(entries@[i as int], entries@[old_order[l] as int]) == Comparison::Less by {
                    let a = entries@[i as int].file_name@;
                    let b = entries@[old_order[p as int] as int].file_name@;
                    let c = entries@[old_order[l] as int].file_name@;
                    lemma_compare_bytes_flip(b, a);
                    if l > p {
                        assert(name_order(entries@[old_order[p as int] as int], entries@[old_order[l] as int]) != Comparison::Greater);
                        lemma_compare_bytes_transitive(a, b, c);
                    }
                }
            }
            order.insert(p, i);
            proof {
                assert forall|j: int, l: int| 0 <= j < l < order@.len() implies
                    name_order(entries@[order@[j] as int], entries@[order@[l] as int]) != Comparison::Greater by {
                    if l < p {
                        assert(order@[j] == old_order[j] && order@[l] == old_order[l]);
                    } else if l == p {
                        assert(order@[j] == old_order[j]);
                    } else if j < p {
                        assert(order@[j] == old_order[j] && order@[l] == old_order[l - 1]);
                    } else if j == p {
                        assert(order@[l] == old_order[l - 1]);
                    } else {
                        assert(order@[j] == old_order[j - 1] && order@[l] == old_order[l - 1]);
                    }
                }
                assert forall|h: int| 0 <= h < i + 1 && is_parquet_file(#[trigger] entries@[h]) implies order@.contains(h as usize) by {
                    if h < i {
                        let j = choose|j: int| 0 <= j < old_order.len() && old_order[j] == h as usize;
                        if j < p {
                            assert(order@[j] == old_order[j]);
                        } else {
                            assert(order@[j + 1] == old_order[j]);
                        }
                    } else {
                        assert(order@[p as int] == i);
                    }
                }
                assert forall|j: int| 0 <= j < order@.len() implies #[trigger] order@[j] < i + 1 && is_parquet_file(entries@[order@[j] as int]) by {
                    if j < p {
                        assert(order@[j] == old_order[j]);
                    } else if j > p {
                        assert(order@[j] == old_order[j - 1]);
                    }
                }
                assert forall|j: int, l: int| 0 <= j < l < order@.len() implies order@[j] != order@[l] by {
                    if j < p {
                        assert(order@[j] == old_order[j]);
                    } else if j > p {
                        assert(order@[j] == old_order[j - 1]);
                    }
                    if l < p {
                        assert(order@[l] == old_order[l]);
                    } else if l > p {
                        assert(order@[l] == old_order[l - 1]);
                    }
                }
            }
        }
        i = i + 1;
    }
    if order.len() == 0 {
        let mut message = String::from_str("directory ");
        message.append(directory_debug);
        message.append(" contains no .parquet files");
        proof {
            assert forall|h: int| 0 <= h < entries@.len() implies !is_parquet_file(#[trigger] entries@[h]) by {
                if is_parquet_file(entries@[h]) {
                    assert(order@.contains(h as usize));
                }
            }
        }
        return Err(PydartError::InvalidParquetPathArgument(message));
    }
    Ok(order)
}


/// No two entries of a directory listing share a file name.
pub open spec fn names_are_distinct(entries: Seq<DirectoryEntry>) -> bool {
    forall|i: int, j: int| 0 <= i < j < entries.len() ==> entries[i].file_name@ != entries[j].file_name@
}

/// The names of a directory's `.parquet` files.
pub open spec fn parquet_file_names(entries: Seq<DirectoryEntry>) -> Set<Seq<u8>> {
    Set::new(|name: Seq<u8>| exists|i: int| 0 <= i < entries.len() && is_parquet_file(#[trigger] entries[i])
        && entries[i].file_name@ == name)
}

/// The file names an index list selects, in its order.
pub open spec fn selected_names(order: Seq<usize>, entries: Seq<DirectoryEntry>) -> Seq<Seq<u8>> {
    order.map_values(|i: usize| entries[i as int].file_name@)
}

/// Byte strings in strictly increasing order.
spec fn strictly_increasing(s: Seq<Seq<u8>>) -> bool {
    forall|j: int, l: int| 0 <= j < l < s.len() ==> compare_bytes(#[trigger] s[j], #[trigger] s[l]) == Comparison::Less
}

/// The names an ordered selection lists are strictly increasing, and are exactly the
/// directory's `.parquet` file names.
proof fn lemma_selection_is_sorted_name_set(order: Seq<usize>, entries: Seq<DirectoryEntry>)
    requires
        lists_parquet_files_in_order(order, entries),
        names_are_distinct(entries),
        entries.len() <= usize::MAX,
    ensures
        strictly_increasing(selected_names(order, entries)),
        forall|name: Seq<u8>| selected_names(order, entries).contains(name) <==> parquet_file_names(entries).contains(name),
{
    let s = selected_names(order, entries);
    assert forall|j: int, l: int| 0 <= j < l < s.len() implies compare_bytes(#[trigger] s[j], #[trigger] s[l]) == Comparison::Less by {
        let (a, b) = (order[j] as int, order[l] as int);
        assert(order[j] < entries.len() && order[l] < entries.len());
        assert(s[j] == entries[a].file_name@ && s[l] == entries[b].file_name@);
        assert(name_order(entries[a], entries[b]) != Comparison::Greater);
        assert(order[j] != order[l]);
        lemma_compare_bytes_equal(entries[a].file_name@, entries[b].file_name@);
        if a < b {
            assert(entries[a].file_name@ != entries[b].file_name@);
        } else {
            assert(entries[b].file_name@ != entries[a].file_name@);
        }
    }
    assert forall|name: Seq<u8>| s.contains(name) implies parquet_file_names(entries).contains(name) by {
        let j = choose|j: int| 0 <= j < s.len() && s[j] == name;
        let i = order[j] as int;
        assert(order[j] < entries.len() && is_parquet_file(entries[i]));
        assert(s[j] == entries[i].file_name@);
        assert(0 <= i < entries.len() && is_parquet_file(entries[i]) && entries[i].file_name@ == name);
    }
    assert forall|name: Seq<u8>| parquet_file_names(entries).contains(name) implies s.contains(name) by {
        assert(exists|i: int| 0 <= i < entries.len() && is_parquet_file(#[trigger] entries[i])
            && entries[i].file_name@ == name);
        let i = choose|i: int| 0 <= i < entries.len() && is_parquet_file(#[trigger] entries[i])
            && entries[i].file_name@ == name;
        assert(order.contains(i as usize));
        let j = choose|j: int| 0 <= j < order.len() && order[j] == i as usize;
        assert(s[j] == entries[order[j] as int].file_name@);
        assert(s[j] == name);
    }
}

/// Two strictly increasing sequences of byte strings holding the same strings are equal.
proof fn lemma_sorted_sequences_with_equal_contents(s1: Seq<Seq<u8>>, s2: Seq<Seq<u8>>)
    requires
        strictly_increasing(s1),
        strictly_increasing(s2),
        forall|x: Seq<u8>| s1.contains(x) <==> s2.contains(x),
    ensures
        s1 == s2,
    decreases s1.len(),
{
    if s1.len() == 0 {
        if s2.len() > 0 {
            assert(s1.contains(s2[0]));
        }
        assert(s1 =~= s2);
    } else {
        assert(s2.contains(s1[0]));
        assert(s1.contains(s2[0]));
        let l = choose|l: int| 0 <= l < s2.len() && s2[l] == s1[0];
        let j = choose|j: int| 0 <= j < s1.len() && s1[j] == s2[0];
        if l > 0 && j > 0 {
            // s2[0] < s1[0] and s1[0] < s2[0]
            assert(compare_bytes(s2[0], s2[l]) == Comparison::Less);
            assert(compare_bytes(s1[0], s1[j]) == Comparison::Less);
            lemma_compare_bytes_flip(s1[0], s2[0]);
        }
        if l > 0 && j == 0 {
            assert(compare_bytes(s2[0], s2[l]) == Comparison::Less);
            lemma_compare_bytes_equal(s2[0], s2[l]);
        }
        if l == 0 && j > 0 {
            assert(compare_bytes(s1[0], s1[j]) == Comparison::Less);
            lemma_compare_bytes_equal(s1[0], s1[j]);
        }
        assert(s1[0] == s2[0]);
        let t1 = s1.drop_first();
        let t2 = s2.drop_first();
        assert forall|x: Seq<u8>| t1.contains(x) <==> t2.contains(x) by {
            if t1.contains(x) {
                let a = choose|a: int| 0 <= a < t1.len() && t1[a] == x;
                assert(s1[a + 1] == x);
                assert(compare_bytes(s1[0], s1[a + 1]) == Comparison::Less);
                lemma_compare_bytes_equal(s1[0], x);
                assert(s2.contains(x));
                let b = choose|b: int| 0 <= b < s2.len() && s2[b] == x;
                assert(b != 0);
                assert(t2[b - 1] == x);
            }
            if t2.contains(x) {
                let b = choose|b: int| 0 <= b < t2.len() && t2[b] == x;
                assert(s2[b + 1] == x);
                assert(compare_bytes(s2[0], s2[b + 1]) == Comparison::Less);
                lemma_compare_bytes_equal(s2[0], x);
                assert(s1.contains(x));
                let a = choose|a: int| 0 <= a < s1.len() && s1[a] == x;
                assert(a != 0);
                assert(t1[a - 1] == x);
            }
        }
        assert forall|j: int, l: int| 0 <= j < l < t1.len() implies compare_bytes(#[trigger] t1[j], #[trigger] t1[l]) == Comparison::Less by {
            assert(t1[j] == s1[j + 1] && t1[l] == s1[l + 1]);
        }
        assert forall|j: int, l: int| 0 <= j < l < t2.len() implies compare_bytes(#[trigger] t2[j], #[trigger] t2[l]) == Comparison::Less by {
            assert(t2[j] == s2[j + 1] && t2[l] == s2[l + 1]);
        }
        lemma_sorted_sequences_with_equal_contents(t1, t2);
        assert(s1 =~= seq![s1[0]] + t1);
        assert(s2 =~= seq![s2[0]] + t2);
    }
}

/// The `.parquet` files read from a directory, and their order, depend only on the names
/// in the directory, never on the order in which the directory happens to be listed.
pub proof fn directory_listing_order_never_changes_the_files_read(
    order1: Seq<usize>,
    entries1: Seq<DirectoryEntry>,
    order2: Seq<usize>,
    entries2: Seq<DirectoryEntry>,
)
    requires
        entries1.len() <= usize::MAX,
        entries2.len() <= usize::MAX,
        names_are_distinct(entries1),
        names_are_distinct(entries2),
        parquet_file_names(entries1) == parquet_file_names(entries2),
        lists_parquet_files_in_order(order1, entries1),
        lists_parquet_files_in_order(order2, entries2),
    ensures
        selected_names(order1, entries1) == selected_names(order2, entries2),
{
    lemma_selection_is_sorted_name_set(order1, entries1);
    lemma_selection_is_sorted_name_set(order2, entries2);
    let (s1, s2) = (selected_names(order1, entries1), selected_names(order2, entries2));
    assert forall|x: Seq<u8>| s1.contains(x) <==> s2.contains(x) by {
        assert(s1.contains(x) <==> parquet_file_names(entries1).contains(x));
        assert(s2.contains(x) <==> parquet_file_names(entries2).contains(x));
    }
    lemma_sorted_sequences_with_equal_contents(s1, s2);
}


/// What `from_parquet` reads of one element of a list passed as its `path`: the path as
/// `Display` and as `{:?}` print it, whether it is a directory, whether it exists, and
/// whether its extension is `parquet`.
#[derive(Debug, Clone)]
pub struct ListedPath {
    pub display: String,
    pub debug: String,
    pub is_dir: bool,
    pub exists: bool,
    pub has_parquet_extension: bool,
}

pub const EMPTY_PATH_LIST_MESSAGE: &'static str = "from_parquet received an empty path list";

pub const PATH_ARGUMENT_SHAPE_MESSAGE: &'static str = "from_parquet's path argument must be a str, pathlib.Path, or a list of str/Path";

pub const NO_SUCH_FILE_REASON: &'static str = "no such file or directory";

pub const NOT_PARQUET_EXTENSION_REASON: &'static str = "expected a .parquet file extension";

/// A listed path `from_parquet` cannot read: a directory, a missing path, or a file without
/// the `.parquet` extension.
pub open spec fn is_bad_listed_path(p: ListedPath) -> bool {
    p.is_dir || !p.exists || !p.has_parquet_extension
}

/// The first listed path `from_parquet` cannot read.
pub open spec fn first_bad_listed_path(paths: Seq<ListedPath>) -> Option<int>
    decreases paths.len(),
{
    if paths.len() == 0 {
        None
    } else if is_bad_listed_path(paths[0]) {
        Some(0)
    } else {
        match first_bad_listed_path(paths.drop_first()) {
            Some(i) => Some(i + 1),
            None => None,
        }
    }
}

proof fn lemma_first_bad_listed_path(paths: Seq<ListedPath>)
    ensures
        match first_bad_listed_path(paths) {
            Some(i) => 0 <= i < paths.len() && is_bad_listed_path(paths[i])
                && forall|j: int| 0 <= j < i ==> !is_bad_listed_path(#[trigger] paths[j]),
            None => forall|j: int| 0 <= j < paths.len() ==> !is_bad_listed_path(#[trigger] paths[j]),
        },
    decreases paths.len(),
{
    if paths.len() > 0 {
        lemma_first_bad_listed_path(paths.drop_first());
        if !is_bad_listed_path(paths[0]) {
            assert forall|j: int| 1 <= j < paths.len() implies paths[j] == paths.drop_first()[j - 1] by {}
        }
    }
}

/// The error a bad listed path is reported with: a directory inside a list is an invalid
/// argument; a missing path, or one without the `.parquet` extension, a read error naming it.
pub open spec fn listed_path_error(p: ListedPath, e: PydartError) -> bool {
    if p.is_dir {
        e matches PydartError::InvalidParquetPathArgument(m) && m@ == "from_parquet path list element "@
            + p.debug@ + " is a directory; pass a directory as the sole path argument instead of inside a list"@
    } else if !p.exists {
        e matches PydartError::ParquetReadError { path, reason } && path@ == p.display@
            && reason@ == NO_SUCH_FILE_REASON@
    } else {
        e matches PydartError::ParquetReadError { path, reason } && path@ == p.display@
            && reason@ == NOT_PARQUET_EXTENSION_REASON@
    }
}

/// Check an explicit list of Parquet paths, in order: an empty list, a directory, a missing
/// path or a non-`.parquet` file is an error (the first offending element is reported),
/// never silently skipped.
pub fn validate_path_list(paths: &[ListedPath]) -> (r: Result<(), PydartError>)
    ensures
        paths@.len() == 0 ==> (r matches Err(PydartError::InvalidParquetPathArgument(m)) && m@ == EMPTY_PATH_LIST_MESSAGE@),
        paths@.len() > 0 ==> match (r, first_bad_listed_path(paths@)) {
            (Ok(()), None) => true,
            (Err(e), Some(i)) => listed_path_error(paths@[i], e),
            _ => false,
        },
{
    if paths.len() == 0 {
        return Err(PydartError::InvalidParquetPathArgument(EMPTY_PATH_LIST_MESSAGE.to_owned()));
    }
    proof {
        lemma_first_bad_listed_path(paths@);
    }
    let mut i: usize = 0;
    while i < paths.len()
        invariant
            i <= paths@.len(),
            forall|j: int| 0 <= j < i ==> !is_bad_listed_path(#[trigger] paths@[j]),
            match first_bad_listed_path(paths@) {
                Some(k) => 0 <= k < paths@.len() && is_bad_listed_path(paths@[k])
                    && forall|j: int| 0 <= j < k ==> !is_bad_listed_path(#[trigger] paths@[j]),
                None => forall|j: int| 0 <= j < paths@.len() ==> !is_bad_listed_path(#[trigger] paths@[j]),
            },
        decreases paths.len() - i,
    {
        let p = &paths[i];
        if p.is_dir {
            let mut m = String::from_str("from_parquet path list element ");
            m.append(p.debug.as_str());
            m.append(" is a directory; pass a directory as the sole path argument instead of inside a list");
            return Err(PydartError::InvalidParquetPathArgument(m));
        }
        if !p.exists {
            return Err(PydartError::ParquetReadError { path: p.display.clone(), reason: NO_SUCH_FILE_REASON.to_owned() });
        }
        if !p.has_parquet_extension {
            return Err(PydartError::ParquetReadError {
                path: p.display.clone(),
                reason: NOT_PARQUET_EXTENSION_REASON.to_owned(),
            });
        }
        i = i + 1;
    }
    Ok(())
}

} // verus!
