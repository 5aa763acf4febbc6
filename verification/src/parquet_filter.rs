//! Parquet filter comparisons and the row-group pruning decision.
//!
//! `could_match_range(op, value, min, max)` answers whether a row group whose column
//! statistics are `[min, max]` MIGHT contain a row satisfying `column {op} value`. It returns
//! `false` only when the range provably cannot satisfy the predicate ("safe to skip"); on any
//! doubt (a missing bound, an incomparable pairing) it keeps the row group.
//!
//! | Op | Skip (`false`) when | Keep (`true`) otherwise |
//! |----|----------------------|--------------------------|
//! | `Eq` | `value < min` or `value > max` | `min <= value <= max` |
//! | `Ne` | `min == max == value` | every other case |
//! | `Lt` | `min >= value` | `min < value` |
//! | `Le` | `min > value` | `min <= value` |
//! | `Gt` | `max <= value` | `max > value` |
//! | `Ge` | `max < value` | `max >= value` |

use vstd::prelude::*;
use crate::ieee754::{
    Comparison, compare_ints, compare_f64_bits, f64_comparison, i64_to_f64_bits, is_nan_bits,
    extended_value, widened_i64_value, lemma_widening_is_monotone,
};
use crate::text::{
    compare_strs, compare_texts, compare_bytes, lemma_compare_bytes_transitive,
    lemma_compare_bytes_flip, lemma_compare_texts_equal, flip,
};
use vstd::arithmetic::power2::{pow2, lemma_pow2_pos};
use vstd::utf8::encode_utf8;

verus! {

/// The six supported filter operators.
#[derive(Debug, Clone, Copy, PartialEq, Eq)]
pub enum Op {
    Eq,
    Ne,
    Lt,
    Le,
    Gt,
    Ge,
}

/// A filter literal or a statistics value. A binary64 value is held as its IEEE-754 bit
/// pattern (`f64::to_bits`).
#[derive(Debug, Clone, PartialEq)]
pub enum ScalarValue {
    Int64(i64),
    Float64(u64),
    Bool(bool),
    Utf8(String),
}

/// One AND-combined filter condition: `column {op} value`.
#[derive(Debug, Clone)]
pub struct FilterExpr {
    pub column: String,
    pub op: Op,
    pub value: ScalarValue,
}

/// `false < true`.
pub open spec fn compare_bools(a: bool, b: bool) -> Comparison {
    if a == b {
        Comparison::Equal
    } else if !a {
        Comparison::Less
    } else {
        Comparison::Greater
    }
}

/// How two scalars compare: same-variant pairs by their own order (strings byte-wise,
/// binary64 values by `partial_cmp`), an `Int64` against a `Float64` after widening the
/// integer to binary64, and `None` for every other pairing or a NaN.
pub open spec fn scalar_comparison(a: ScalarValue, b: ScalarValue) -> Option<Comparison> {
    match (a, b) {
        (ScalarValue::Int64(x), ScalarValue::Int64(y)) => Some(compare_ints(x as int, y as int)),
        (ScalarValue::Float64(x), ScalarValue::Float64(y)) => f64_comparison(x, y),
        (ScalarValue::Bool(x), ScalarValue::Bool(y)) => Some(compare_bools(x, y)),
        (ScalarValue::Utf8(x), ScalarValue::Utf8(y)) => Some(compare_texts(x@, y@)),
        (ScalarValue::Int64(x), ScalarValue::Float64(y)) => if is_nan_bits(y) {
            None
        } else {
            Some(compare_ints(widened_i64_value(x), extended_value(y)))
        },
        (ScalarValue::Float64(x), ScalarValue::Int64(y)) => if is_nan_bits(x) {
            None
        } else {
            Some(compare_ints(extended_value(x), widened_i64_value(y)))
        },
        _ => None,
    }
}

/// `a <= b`, conservatively true when incomparable.
pub open spec fn spec_le(a: ScalarValue, b: ScalarValue) -> bool {
    scalar_comparison(a, b) != Some(Comparison::Greater)
}

/// `a < b`, conservatively true when incomparable.
pub open spec fn spec_lt(a: ScalarValue, b: ScalarValue) -> bool {
    scalar_comparison(a, b) == Some(Comparison::Less) || scalar_comparison(a, b) is None
}

/// `a == b` under the widening comparison.
pub open spec fn spec_eq(a: ScalarValue, b: ScalarValue) -> bool {
    scalar_comparison(a, b) == Some(Comparison::Equal)
}

/// Whether a row group with statistics `[min, max]` might hold a row with `column {op} value`.
pub open spec fn range_might_match(op: Op, value: ScalarValue, min: ScalarValue, max: ScalarValue) -> bool {
    match op {
        Op::Eq => spec_le(min, value) && spec_le(value, max),
        Op::Ne => !(spec_eq(min, max) && spec_eq(min, value)),
        Op::Lt => spec_lt(min, value),
        Op::Le => spec_le(min, value),
        Op::Gt => spec_lt(value, max),
        Op::Ge => spec_le(value, max),
    }
}

/// Compare two scalars (see `scalar_comparison`).
pub fn compare(a: &ScalarValue, b: &ScalarValue) -> (c: Option<Comparison>)
    ensures
        c == scalar_comparison(*a, *b),
{
    match (a, b) {
        (ScalarValue::Int64(x), ScalarValue::Int64(y)) => {
            if *x < *y {
                Some(Comparison::Less)
            } else if *x == *y {
                Some(Comparison::Equal)
            } else {
                Some(Comparison::Greater)
            }
        },
        (ScalarValue::Float64(x), ScalarValue::Float64(y)) => compare_f64_bits(*x, *y),
        (ScalarValue::Bool(x), ScalarValue::Bool(y)) => {
            if *x == *y {
                Some(Comparison::Equal)
            } else if !*x {
                Some(Comparison::Less)
            } else {
                Some(Comparison::Greater)
            }
        },
        (ScalarValue::Utf8(x), ScalarValue::Utf8(y)) => Some(compare_strs(x.as_str(), y.as_str())),
        (ScalarValue::Int64(x), ScalarValue::Float64(y)) => compare_f64_bits(i64_to_f64_bits(*x), *y),
        (ScalarValue::Float64(x), ScalarValue::Int64(y)) => compare_f64_bits(*x, i64_to_f64_bits(*y)),
        _ => None,
    }
}

/// `a <= b`, conservatively `true` when incomparable.
fn le(a: &ScalarValue, b: &ScalarValue) -> (r: bool)
    ensures
        r == spec_le(*a, *b),
{
    match compare(a, b) {
        Some(Comparison::Greater) => false,
        _ => true,
    }
}

/// `a < b`, conservatively `true` when incomparable.
fn lt(a: &ScalarValue, b: &ScalarValue) -> (r: bool)
    ensures
        r == spec_lt(*a, *b),
{
    match compare(a, b) {
        Some(Comparison::Less) | None => true,
        _ => false,
    }
}

/// `a == b`, with the same widening as `le`/`lt`.
fn eq(a: &ScalarValue, b: &ScalarValue) -> (r: bool)
    ensures
        r == spec_eq(*a, *b),
{
    match compare(a, b) {
        Some(Comparison::Equal) => true,
        _ => false,
    }
}

/// Decide whether a row group whose column statistics are `[min, max]` MIGHT contain a row
/// matching `column {op} value`. A missing bound always keeps the row group.
pub fn could_match_range(
    op: Op,
    value: &ScalarValue,
    min: Option<&ScalarValue>,
    max: Option<&ScalarValue>,
) -> (keep: bool)
    ensures
        match (min, max) {
            (Some(lo), Some(hi)) => keep == range_might_match(op, *value, *lo, *hi),
            _ => keep,
        },
{
    let (min, max) = match (min, max) {
        (Some(min), Some(max)) => (min, max),
        _ => return true,
    };
    match op {
        Op::Eq => le(min, value) && le(value, max),
        Op::Ne => !(eq(min, max) && eq(min, value)),
        Op::Lt => lt(min, value),
        Op::Le => le(min, value),
        Op::Gt => lt(value, max),
        Op::Ge => le(value, max),
    }
}


/// Whether `v {op} value` holds, given how `v` compares with `value`.
pub open spec fn op_holds(op: Op, c: Comparison) -> bool {
    match op {
        Op::Eq => c == Comparison::Equal,
        Op::Ne => c != Comparison::Equal,
        Op::Lt => c == Comparison::Less,
        Op::Le => c != Comparison::Greater,
        Op::Gt => c == Comparison::Greater,
        Op::Ge => c != Comparison::Less,
    }
}

/// `min <= v <= max`, each comparison defined.
pub open spec fn within_range(v: ScalarValue, min: ScalarValue, max: ScalarValue) -> bool {
    &&& scalar_comparison(min, v) matches Some(c) && c != Comparison::Greater
    &&& scalar_comparison(v, max) matches Some(d) && d != Comparison::Greater
}

/// An `Int64` that binary64 holds exactly (|x| < 2^53), or a `Float64`.
pub open spec fn is_exact_numeric(s: ScalarValue) -> bool {
    match s {
        ScalarValue::Int64(x) => -0x20_0000_0000_0000 < x < 0x20_0000_0000_0000,
        ScalarValue::Float64(_) => true,
        _ => false,
    }
}

/// Scalars among which the comparison is a total preorder: all `Int64`, all `Bool`, all
/// `Utf8`, or numbers of which every `Int64` is exactly representable in binary64.
pub open spec fn same_order_domain(a: ScalarValue, b: ScalarValue, c: ScalarValue, d: ScalarValue) -> bool {
    ||| (a is Int64 && b is Int64 && c is Int64 && d is Int64)
    ||| (a is Bool && b is Bool && c is Bool && d is Bool)
    ||| (a is Utf8 && b is Utf8 && c is Utf8 && d is Utf8)
    ||| (is_exact_numeric(a) && is_exact_numeric(b) && is_exact_numeric(c) && is_exact_numeric(d))
}

/// A column's minimum, maximum and value share the column's type: all `Int64`, all
/// `Float64`, all `Bool` or all `Utf8`.
pub open spec fn same_column_type(min: ScalarValue, max: ScalarValue, v: ScalarValue) -> bool {
    ||| (min is Int64 && max is Int64 && v is Int64)
    ||| (min is Float64 && max is Float64 && v is Float64)
    ||| (min is Bool && max is Bool && v is Bool)
    ||| (min is Utf8 && max is Utf8 && v is Utf8)
}

/// The position of an exact numeric scalar on the extended number line (units of 2^-1074).
pub open spec fn numeric_rank(s: ScalarValue) -> int {
    match s {
        ScalarValue::Int64(x) => x * pow2(1074),
        ScalarValue::Float64(b) => extended_value(b),
        _ => 0,
    }
}

/// Below 2^53, widening an integer to binary64 is exact.
proof fn lemma_small_int_widens_exactly(x: i64)
    requires
        -0x20_0000_0000_0000 < x < 0x20_0000_0000_0000,
    ensures
        widened_i64_value(x) == x * pow2(1074),
{
    assert(crate::ieee754::precision_shift(crate::ieee754::abs_i64(x)) == 0);
    assert((-(x as int)) * pow2(1074) == -(x * pow2(1074))) by (nonlinear_arith);
    assert(-(((-x) as int) * pow2(1074)) == x * pow2(1074)) by (nonlinear_arith);
}

/// Exact numerics compare by rank, whenever neither is NaN.
proof fn lemma_numeric_comparison_by_rank(a: ScalarValue, b: ScalarValue)
    requires
        is_exact_numeric(a),
        is_exact_numeric(b),
        scalar_comparison(a, b) is Some,
    ensures
        scalar_comparison(a, b) == Some(compare_ints(numeric_rank(a), numeric_rank(b))),
{
    lemma_pow2_pos(1074);
    let p = pow2(1074) as int;
    match (a, b) {
        (ScalarValue::Int64(x), ScalarValue::Int64(y)) => {
            if x < y {
                vstd::arithmetic::mul::lemma_mul_strict_inequality(x as int, y as int, p);
            } else if y < x {
                vstd::arithmetic::mul::lemma_mul_strict_inequality(y as int, x as int, p);
            }
        },
        (ScalarValue::Int64(x), ScalarValue::Float64(_)) => {
            lemma_small_int_widens_exactly(x);
        },
        (ScalarValue::Float64(_), ScalarValue::Int64(y)) => {
            lemma_small_int_widens_exactly(y);
        },
        _ => {},
    }
}

/// Text comparison is a total preorder that only calls identical texts equal.
proof fn lemma_text_order(a: Seq<char>, b: Seq<char>, c: Seq<char>)
    ensures
        compare_texts(b, a) == flip(compare_texts(a, b)),
        (compare_texts(a, b) == Comparison::Equal) <==> a == b,
        compare_texts(a, b) != Comparison::Greater && compare_texts(b, c) != Comparison::Greater
            ==> compare_texts(a, c) != Comparison::Greater && ((compare_texts(a, b) == Comparison::Less
            || compare_texts(b, c) == Comparison::Less) ==> compare_texts(a, c) == Comparison::Less),
{
    lemma_compare_bytes_flip(encode_utf8(a), encode_utf8(b));
    lemma_compare_texts_equal(a, b);
    if compare_texts(a, b) != Comparison::Greater && compare_texts(b, c) != Comparison::Greater {
        lemma_compare_bytes_transitive(encode_utf8(a), encode_utf8(b), encode_utf8(c));
    }
}

/// Pruning never drops a row group that holds a matching value: if some `v` lies within a
/// row group's `[min, max]` statistics and satisfies `v {op} value`, the row group is kept.
/// Stated for a row value of the column's own type (an integer filter value is widened to
/// binary64 against a float column, and the column's integers against a float filter
/// value), and for scalars that share one order (see `same_order_domain`).
pub proof fn pruning_keeps_every_possible_match(
    op: Op,
    value: ScalarValue,
    min: ScalarValue,
    max: ScalarValue,
    v: ScalarValue,
)
    requires
        same_order_domain(value, min, max, v) || same_column_type(min, max, v),
        within_range(v, min, max),
        scalar_comparison(v, value) matches Some(c) && op_holds(op, c),
    ensures
        range_might_match(op, value, min, max),
{
    if is_exact_numeric(value) && is_exact_numeric(min) && is_exact_numeric(max) && is_exact_numeric(v) {
        lemma_numeric_comparison_by_rank(min, v);
        lemma_numeric_comparison_by_rank(v, max);
        lemma_numeric_comparison_by_rank(v, value);
        // Every scalar took part in a defined comparison, so none is NaN.
        assert(!(min matches ScalarValue::Float64(b) && is_nan_bits(b)));
        assert(!(max matches ScalarValue::Float64(b) && is_nan_bits(b)));
        assert(!(value matches ScalarValue::Float64(b) && is_nan_bits(b)));
        lemma_numeric_comparison_by_rank(min, value);
        lemma_numeric_comparison_by_rank(value, max);
        lemma_numeric_comparison_by_rank(min, max);
    } else if min is Int64 && value is Float64 {
        // An integer column against a float: the column's integers are widened, which keeps
        // their order.
        let (lo, hi, x) = (min->Int64_0, max->Int64_0, v->Int64_0);
        lemma_widening_is_monotone(lo, x);
        lemma_widening_is_monotone(x, hi);
        lemma_widening_is_monotone(lo, hi);
    } else if min is Float64 && value is Int64 {
        // A float column against an integer: every comparison is with the widened integer.
    } else if value is Utf8 {
        let (a, lo, hi, x) = (value->Utf8_0@, min->Utf8_0@, max->Utf8_0@, v->Utf8_0@);
        lemma_text_order(lo, x, hi);
        lemma_text_order(x, a, lo);
        lemma_text_order(lo, x, a);
        lemma_text_order(a, x, hi);
        lemma_text_order(x, hi, a);
        lemma_text_order(lo, hi, a);
        lemma_text_order(lo, a, hi);
        lemma_text_order(a, hi, lo);
    }
}


/// Booleans order as `false < true`: two booleans compare by that order.
pub proof fn booleans_order_false_before_true(a: bool, b: bool)
    ensures
        scalar_comparison(ScalarValue::Bool(a), ScalarValue::Bool(b)) == Some(
            if a == b {
                Comparison::Equal
            } else if b {
                Comparison::Less
            } else {
                Comparison::Greater
            },
        ),
        (scalar_comparison(ScalarValue::Bool(a), ScalarValue::Bool(b)) == Some(Comparison::Less)) <==> (!a && b),
{
}

} // verus!
