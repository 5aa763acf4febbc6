//! Exact comparisons of IEEE-754 binary64 values held as their bit patterns.
//!
//! Floating-point values enter the library only as `u64` bit patterns
//! (`f64::to_bits`). This module gives those patterns their mathematical meaning and
//! implements, with proofs, the comparisons the Parquet filter logic needs: the
//! partial order of two binary64 values, and the round-to-nearest-even widening of an
//! `i64` into binary64.

use vstd::prelude::*;
use vstd::arithmetic::power2::{pow2, lemma_pow2_pos, lemma_pow2_adds, lemma_pow2_strictly_increases, lemma2_to64};
use vstd::arithmetic::mul::{lemma_mul_inequality, lemma_mul_strict_inequality};

verus! {

/// The outcome of comparing two comparable values.
#[derive(Debug, Clone, Copy, PartialEq, Eq)]
pub enum Comparison {
    Less,
    Equal,
    Greater,
}

/// The comparison of two mathematical integers.
pub open spec fn compare_ints(a: int, b: int) -> Comparison {
    if a < b {
        Comparison::Less
    } else if a == b {
        Comparison::Equal
    } else {
        Comparison::Greater
    }
}

/// The sign bit of a binary64 pattern.
pub const SIGN_BIT: u64 = 0x8000_0000_0000_0000;

/// The magnitude bits (sign cleared) of positive infinity.
pub const INFINITY_BITS: u64 = 0x7ff0_0000_0000_0000;

/// 2^52: the unit of the biased-exponent field, and the implicit leading significand bit.
pub const FRACTION_UNIT: u64 = 0x10_0000_0000_0000;

/// Whether the sign bit is set.
pub open spec fn is_negative_bits(b: u64) -> bool {
    b >= SIGN_BIT
}

/// The pattern with its sign bit cleared.
pub open spec fn magnitude_bits(b: u64) -> nat {
    if b >= SIGN_BIT {
        (b - SIGN_BIT) as nat
    } else {
        b as nat
    }
}

/// A NaN: all-ones exponent and a non-zero fraction.
pub open spec fn is_nan_bits(b: u64) -> bool {
    magnitude_bits(b) > INFINITY_BITS
}

/// An infinity: all-ones exponent and a zero fraction.
pub open spec fn is_infinite_bits(b: u64) -> bool {
    magnitude_bits(b) == INFINITY_BITS
}

/// The biased exponent field of a magnitude.
pub open spec fn exponent_field(m: nat) -> nat {
    m / (FRACTION_UNIT as nat)
}

/// The fraction field of a magnitude.
pub open spec fn fraction_field(m: nat) -> nat {
    m % (FRACTION_UNIT as nat)
}

/// The value of a finite magnitude, in units of 2^-1074 (the smallest subnormal):
/// a subnormal is `fraction * 2^-1074`, a normal is `(2^52 + fraction) * 2^(exponent - 1075)`.
pub open spec fn finite_magnitude(m: nat) -> nat {
    let e = exponent_field(m);
    let f = fraction_field(m);
    if e == 0 {
        f
    } else {
        ((f + FRACTION_UNIT) * pow2((e - 1) as nat)) as nat
    }
}

/// A rank beyond every finite magnitude (the largest finite one is below 2^2098),
/// standing for infinity.
pub open spec fn infinite_rank() -> nat {
    pow2(2098)
}

/// The magnitude's position on the extended number line, in units of 2^-1074.
pub open spec fn magnitude_rank(m: nat) -> nat {
    if m >= INFINITY_BITS {
        infinite_rank()
    } else {
        finite_magnitude(m)
    }
}

/// The value of a non-NaN pattern on the extended number line, in units of 2^-1074;
/// both zeros are 0, and the infinities lie beyond every finite value.
pub open spec fn extended_value(b: u64) -> int {
    if is_negative_bits(b) {
        -magnitude_rank(magnitude_bits(b))
    } else {
        magnitude_rank(magnitude_bits(b)) as int
    }
}

/// `f64::partial_cmp`: `None` when either side is NaN, otherwise the comparison of values
/// (so `-0.0 == 0.0`).
pub open spec fn f64_comparison(a: u64, b: u64) -> Option<Comparison> {
    if is_nan_bits(a) || is_nan_bits(b) {
        None
    } else {
        Some(compare_ints(extended_value(a), extended_value(b)))
    }
}

proof fn lemma_pow2_52()
    ensures
        pow2(52) == FRACTION_UNIT,
{
    lemma2_to64();
    lemma_pow2_adds(32, 20);
}

proof fn lemma_pow2_monotone(a: nat, b: nat)
    requires
        a <= b,
    ensures
        pow2(a) <= pow2(b),
{
    if a < b {
        lemma_pow2_strictly_increases(a, b);
    }
}

/// A finite magnitude lies in `[2^52 * 2^(e-1), 2^52 * 2^e)` for its exponent field `e >= 1`,
/// and equals the fraction when `e == 0`.
proof fn lemma_finite_magnitude_bounds(m: nat)
    ensures
        finite_magnitude(m) < FRACTION_UNIT * pow2(exponent_field(m)),
        exponent_field(m) == 0 ==> finite_magnitude(m) == m,
        exponent_field(m) >= 1 ==> FRACTION_UNIT * pow2((exponent_field(m) - 1) as nat)
            <= finite_magnitude(m),
{
    let e = exponent_field(m);
    let f = fraction_field(m);
    lemma_pow2_pos(e);
    if e == 0 {
        assert(pow2(0) == 1) by {
            lemma2_to64();
        }
    } else {
        let p = pow2((e - 1) as nat);
        lemma_pow2_pos((e - 1) as nat);
        assert(pow2(e) == 2 * p) by {
            lemma_pow2_adds(1, (e - 1) as nat);
            lemma2_to64();
        }
        lemma_mul_strict_inequality(f + FRACTION_UNIT, 2 * FRACTION_UNIT, p as int);
        lemma_mul_inequality(FRACTION_UNIT as int, f + FRACTION_UNIT, p as int);
        assert((2 * FRACTION_UNIT) * p == FRACTION_UNIT * (2 * p)) by (nonlinear_arith);
    }
}

/// Larger magnitude patterns (up to infinity) have strictly larger ranks.
pub proof fn lemma_magnitude_rank_strictly_increases(m1: nat, m2: nat)
    requires
        m1 < m2,
        m2 <= INFINITY_BITS,
    ensures
        magnitude_rank(m1) < magnitude_rank(m2),
{
    let u = FRACTION_UNIT as int;
    let e1 = exponent_field(m1);
    let e2 = exponent_field(m2);
    lemma_finite_magnitude_bounds(m1);
    assert(e1 <= 2046);
    if m2 == INFINITY_BITS {
        lemma_pow2_monotone(e1, 2046);
        lemma_mul_inequality(pow2(e1) as int, pow2(2046) as int, u);
        lemma_pow2_52();
        lemma_pow2_adds(52, 2046);
        assert(u * pow2(e1) <= u * pow2(2046)) by (nonlinear_arith)
            requires pow2(e1) <= pow2(2046), u >= 0;
    } else {
        lemma_finite_magnitude_bounds(m2);
        assert(e1 <= e2) by {
            vstd::arithmetic::div_mod::lemma_div_is_ordered(m1 as int, m2 as int, u);
        }
        if e1 == e2 {
            let f1 = fraction_field(m1);
            let f2 = fraction_field(m2);
            vstd::arithmetic::div_mod::lemma_fundamental_div_mod(m1 as int, u);
            vstd::arithmetic::div_mod::lemma_fundamental_div_mod(m2 as int, u);
            assert(f1 < f2) by (nonlinear_arith)
                requires m1 == u * e1 + f1, m2 == u * e2 + f2, e1 == e2, m1 < m2;
            if e1 >= 1 {
                lemma_pow2_pos((e1 - 1) as nat);
                lemma_mul_strict_inequality(f1 + u, f2 + u, pow2((e1 - 1) as nat) as int);
            }
        } else {
            lemma_pow2_monotone(e1, (e2 - 1) as nat);
            assert(u * pow2(e1) <= u * pow2((e2 - 1) as nat)) by (nonlinear_arith)
                requires pow2(e1) <= pow2((e2 - 1) as nat), u >= 0;
        }
    }
}

/// The zero magnitude ranks 0; every other magnitude ranks above it.
proof fn lemma_magnitude_rank_zero(m: nat)
    requires
        m <= INFINITY_BITS,
    ensures
        m == 0 ==> magnitude_rank(m) == 0,
        m > 0 ==> magnitude_rank(m) > 0,
{
    if m > 0 {
        lemma_magnitude_rank_strictly_increases(0, m);
    }
}

/// `f64::partial_cmp` on bit patterns.
pub fn compare_f64_bits(a: u64, b: u64) -> (c: Option<Comparison>)
    ensures
        c == f64_comparison(a, b),
{
    let ma = if a >= SIGN_BIT { a - SIGN_BIT } else { a };
    let mb = if b >= SIGN_BIT { b - SIGN_BIT } else { b };
    if ma > INFINITY_BITS || mb > INFINITY_BITS {
        return None;
    }
    proof {
        lemma_magnitude_rank_zero(ma as nat);
        lemma_magnitude_rank_zero(mb as nat);
        if ma < mb {
            lemma_magnitude_rank_strictly_increases(ma as nat, mb as nat);
        }
        if mb < ma {
            lemma_magnitude_rank_strictly_increases(mb as nat, ma as nat);
        }
    }
    let na = a >= SIGN_BIT;
    let nb = b >= SIGN_BIT;
    if ma == 0 && mb == 0 {
        Some(Comparison::Equal)
    } else if !na && !nb {
        if ma < mb {
            Some(Comparison::Less)
        } else if ma == mb {
            Some(Comparison::Equal)
        } else {
            Some(Comparison::Greater)
        }
    } else if na && nb {
        if mb < ma {
            Some(Comparison::Less)
        } else if ma == mb {
            Some(Comparison::Equal)
        } else {
            Some(Comparison::Greater)
        }
    } else if !na {
        Some(Comparison::Greater)
    } else {
        Some(Comparison::Less)
    }
}


/// 2^53: one past the largest 53-bit significand.
pub const SIGNIFICAND_LIMIT: u64 = 0x20_0000_0000_0000;

/// How many halvings bring `n` below 2^53, i.e. how many low bits of `n` a 53-bit
/// significand cannot hold.
pub open spec fn precision_shift(n: nat) -> nat
    decreases n,
{
    if n < SIGNIFICAND_LIMIT {
        0
    } else {
        1 + precision_shift(n / 2)
    }
}

/// `n` rounded to 53 significant bits, ties to even.
pub open spec fn round_to_significand(n: nat) -> nat {
    let k = precision_shift(n);
    if k == 0 {
        n
    } else {
        let p = pow2(k);
        let q = n / p;
        let r = n % p;
        let half = pow2((k - 1) as nat);
        let rounded = if r > half || (r == half && q % 2 == 1) {
            q + 1
        } else {
            q
        };
        (rounded * p) as nat
    }
}

/// The absolute value of an `i64`.
pub open spec fn abs_i64(x: i64) -> nat {
    if x < 0 {
        (-x) as nat
    } else {
        x as nat
    }
}

/// The value of `x as f64` (round to nearest, ties to even), in units of 2^-1074.
pub open spec fn widened_i64_value(x: i64) -> int {
    let v = round_to_significand(abs_i64(x));
    (if x < 0 {
        -v
    } else {
        v as int
    }) * pow2(1074)
}

proof fn lemma_pow2_succ(a: nat)
    ensures
        pow2(a + 1) == 2 * pow2(a),
{
    lemma_pow2_adds(a, 1);
    lemma2_to64();
}

/// `n` has fewer than `53 + k` significant bits, and (when `k > 0`) at least `53 + k`,
/// for `k == precision_shift(n)`.
proof fn lemma_precision_shift_bounds(n: nat)
    ensures
        n < pow2(53 + precision_shift(n)),
        precision_shift(n) > 0 ==> pow2(52 + precision_shift(n)) <= n,
    decreases n,
{
    lemma_pow2_52();
    lemma_pow2_succ(52);
    if n >= SIGNIFICAND_LIMIT {
        lemma_precision_shift_bounds(n / 2);
        let k = precision_shift(n / 2);
        assert(precision_shift(n) == k + 1);
        lemma_pow2_succ(53 + k);
        lemma_pow2_succ(52 + k);
    }
}

/// Rounding to 53 significant bits never decreases from `n` to `n + 1`.
proof fn lemma_round_step(n: nat)
    ensures
        round_to_significand(n) <= round_to_significand(n + 1),
{
    let k = precision_shift(n);
    let k1 = precision_shift(n + 1);
    lemma_precision_shift_bounds(n);
    lemma_precision_shift_bounds(n + 1);
    lemma_pow2_52();
    lemma_pow2_succ(52);
    if k1 < k {
        lemma_pow2_monotone(53 + k1, 52 + k);
        assert(false);
    }
    if k1 > k + 1 {
        lemma_pow2_monotone(54 + k, 52 + k1);
        lemma_pow2_succ(53 + k);
        assert(false);
    }
    if k1 == k + 1 {
        assert(n + 1 == pow2(53 + k));
        let p1 = pow2(k1);
        lemma_pow2_adds(52, k1);
        lemma_pow2_pos(k1);
        lemma_pow2_pos(k);
        assert(pow2((k1 - 1) as nat) > 0);
        vstd::arithmetic::div_mod::lemma_fundamental_div_mod_converse(
            (n + 1) as int,
            p1 as int,
            pow2(52) as int,
            0,
        );
        assert(round_to_significand(n + 1) == n + 1) by (nonlinear_arith)
            requires
                round_to_significand(n + 1) == pow2(52) * p1,
                n + 1 == pow2(52) * p1,
        ;
        if k > 0 {
            let p = pow2(k);
            lemma_pow2_adds(53, k);
            assert(n == (pow2(53) - 1) * p + (p - 1)) by (nonlinear_arith)
                requires
                    n + 1 == pow2(53) * p,
                    p >= 1,
            ;
            vstd::arithmetic::div_mod::lemma_fundamental_div_mod_converse(
                n as int,
                p as int,
                pow2(53) - 1,
                p - 1,
            );
            let q = n / p;
            assert(round_to_significand(n) <= (q + 1) * p) by (nonlinear_arith)
                requires
                    round_to_significand(n) == q * p || round_to_significand(n) == (q + 1) * p,
                    p >= 1,
            ;
            assert((q + 1) * p == n + 1) by (nonlinear_arith)
                requires
                    q == pow2(53) - 1,
                    n + 1 == pow2(53) * p,
            ;
        }
    } else if k > 0 {
        let p = pow2(k);
        lemma_pow2_pos(k);
        let q = n / p;
        let r = n % p;
        vstd::arithmetic::div_mod::lemma_fundamental_div_mod(n as int, p as int);
        if r + 1 < p {
            vstd::arithmetic::div_mod::lemma_fundamental_div_mod_converse(
                (n + 1) as int,
                p as int,
                q as int,
                (r + 1) as int,
            );
            assert(round_to_significand(n) <= round_to_significand(n + 1)) by (nonlinear_arith)
                requires
                    round_to_significand(n) == q * p || round_to_significand(n) == (q + 1) * p,
                    round_to_significand(n) == (q + 1) * p ==> round_to_significand(n + 1) == (q + 1) * p,
                    round_to_significand(n + 1) == q * p || round_to_significand(n + 1) == (q + 1) * p,
                    p >= 1,
            ;
        } else {
            assert(n + 1 == (q + 1) * p) by (nonlinear_arith)
                requires
                    n == p * q + r,
                    r + 1 == p,
            ;
            vstd::arithmetic::div_mod::lemma_fundamental_div_mod_converse(
                (n + 1) as int,
                p as int,
                (q + 1) as int,
                0,
            );
            assert(round_to_significand(n) <= round_to_significand(n + 1)) by (nonlinear_arith)
                requires
                    round_to_significand(n) == q * p || round_to_significand(n) == (q + 1) * p,
                    round_to_significand(n + 1) == (q + 1) * p || round_to_significand(n + 1) == (q + 2) * p,
                    p >= 1,
            ;
        }
    }
}

/// Rounding to 53 significant bits is monotone.
proof fn lemma_round_monotone(n: nat, m: nat)
    requires
        n <= m,
    ensures
        round_to_significand(n) <= round_to_significand(m),
    decreases m - n,
{
    if n < m {
        lemma_round_step(n);
        lemma_round_monotone(n + 1, m);
    }
}

/// Widening an `i64` into binary64 preserves order (not strictly: distinct integers may
/// round to the same value).
pub proof fn lemma_widening_is_monotone(x: i64, y: i64)
    requires
        x <= y,
    ensures
        widened_i64_value(x) <= widened_i64_value(y),
{
    lemma_pow2_pos(1074);
    let p = pow2(1074) as int;
    let vx = round_to_significand(abs_i64(x));
    let vy = round_to_significand(abs_i64(y));
    let sx: int = if x < 0 { -vx } else { vx as int };
    let sy: int = if y < 0 { -vy } else { vy as int };
    if x >= 0 {
        lemma_round_monotone(abs_i64(x), abs_i64(y));
    } else if y < 0 {
        lemma_round_monotone(abs_i64(y), abs_i64(x));
    }
    assert(sx <= sy);
    lemma_mul_inequality(sx, sy, p);
}

/// Builds the pattern of `(-1)^negative * significand * 2^(biased - 1075)`.
fn assemble_bits(negative: bool, biased: u64, significand: u64) -> (b: u64)
    requires
        1 <= biased <= 2046,
        FRACTION_UNIT <= significand < 2 * FRACTION_UNIT,
    ensures
        !is_nan_bits(b),
        !is_infinite_bits(b),
        extended_value(b) == (if negative {
            -(significand * pow2((biased - 1) as nat))
        } else {
            significand * pow2((biased - 1) as nat)
        }),
{
    let m = biased * FRACTION_UNIT + (significand - FRACTION_UNIT);
    proof {
        vstd::arithmetic::div_mod::lemma_fundamental_div_mod_converse(
            m as int,
            FRACTION_UNIT as int,
            biased as int,
            (significand - FRACTION_UNIT) as int,
        );
    }
    if negative {
        SIGN_BIT + m
    } else {
        m
    }
}

/// The pattern of `x as f64`.
pub fn i64_to_f64_bits(x: i64) -> (b: u64)
    ensures
        !is_nan_bits(b),
        !is_infinite_bits(b),
        extended_value(b) == widened_i64_value(x),
{
    if x == 0 {
        proof {
            assert(round_to_significand(0) == 0);
            assert(magnitude_bits(0) == 0);
            assert(finite_magnitude(0) == 0);
            assert(extended_value(0) == 0);
            assert(abs_i64(x) == 0);
            assert(widened_i64_value(x) == 0);
        }
        return 0;
    }
    let negative = x < 0;
    let n: u64 = if x == i64::MIN {
        SIGN_BIT
    } else if negative {
        (-x) as u64
    } else {
        x as u64
    };
    assert(n as nat == abs_i64(x));
    proof {
        lemma_pow2_52();
        lemma2_to64();
        lemma_pow2_adds(52, 1);
    }
    let mut sig = n;
    let mut rem: u64 = 0;
    let mut p: u64 = 1;
    let mut shift: u64 = 0;
    while sig >= SIGNIFICAND_LIMIT
        invariant
            1 <= n <= SIGN_BIT,
            pow2(52) == FRACTION_UNIT,
            pow2(53) == SIGNIFICAND_LIMIT,
            pow2(0) == 1,
            pow2(1) == 2,
            p as nat == pow2(shift as nat),
            shift <= 11,
            p <= 2048,
            rem < p,
            n as nat == sig as nat * p as nat + rem as nat,
            sig as nat == n as nat / pow2(shift as nat),
            rem as nat == n as nat % pow2(shift as nat),
            shift + precision_shift(sig as nat) == precision_shift(n as nat),
            shift > 0 ==> sig >= FRACTION_UNIT,
        decreases sig,
    {
        proof {
            lemma2_to64();
            lemma_pow2_pos(shift as nat);
            lemma_pow2_adds(shift as nat, 1);
            vstd::arithmetic::div_mod::lemma_div_denominator(n as int, pow2(shift as nat) as int, 2);
            vstd::arithmetic::div_mod::lemma_mod_breakdown(n as int, pow2(shift as nat) as int, 2);
            if shift == 11 {
                lemma_pow2_adds(11, 53);
                lemma_pow2_adds(11, 52);
                assert(false) by (nonlinear_arith)
                    requires
                        sig >= SIGNIFICAND_LIMIT,
                        n as int == sig as int * p as int + rem as int,
                        rem >= 0,
                        p == 2048,
                        n <= SIGN_BIT,
                ;
            }
            lemma_pow2_monotone(shift as nat, 10);
            assert(sig * p < 0x1_0000_0000_0000_0000) by (nonlinear_arith)
                requires n as int == sig as int * p as int + rem as int, rem >= 0, n <= SIGN_BIT;
        }
        let ghost sig0 = sig;
        let ghost rem0 = rem;
        let ghost p0 = p;
        let bit = sig % 2;
        rem = rem + bit * p;
        sig = sig / 2;
        p = p * 2;
        shift = shift + 1;
        proof {
            assert(n as int == sig as int * p as int + rem as int) by (nonlinear_arith)
                requires
                    n as int == sig0 as int * p0 as int + rem0 as int,
                    sig0 as int == 2 * sig as int + bit as int,
                    p as int == 2 * p0 as int,
                    rem as int == rem0 as int + bit as int * p0 as int,
            ;
            assert(p0 * bit == bit * p0) by (nonlinear_arith);
        }
    }
    let v: Ghost<nat> = Ghost(round_to_significand(n as nat));
    if shift > 0 {
        let half = p / 2;
        proof {
            lemma_pow2_adds((shift - 1) as nat, 1);
            lemma2_to64();
            assert(half as nat == pow2((shift - 1) as nat));
            assert(precision_shift(n as nat) == shift);
        }
        if rem > half || (rem == half && sig % 2 == 1) {
            sig = sig + 1;
        }
        assert(v@ == sig * p);
        let mut biased = 1075 + shift;
        if sig == SIGNIFICAND_LIMIT {
            proof {
                lemma_pow2_adds(shift as nat, 1);
                assert(SIGNIFICAND_LIMIT * p == FRACTION_UNIT * (p * 2)) by (nonlinear_arith);
            }
            sig = FRACTION_UNIT;
            biased = biased + 1;
        }
        assert(v@ == sig * pow2((biased - 1075) as nat));
        let b = assemble_bits(negative, biased, sig);
        proof {
            lemma_pow2_adds((biased - 1075) as nat, 1074);
            assert(sig * pow2((biased - 1) as nat) == (sig * pow2((biased - 1075) as nat)) * pow2(1074))
                by (nonlinear_arith)
                requires pow2((biased - 1) as nat) == pow2((biased - 1075) as nat) * pow2(1074);
            assert((-(v@ as int)) * pow2(1074) == -(v@ * pow2(1074))) by (nonlinear_arith);
        }
        b
    } else {
        assert(precision_shift(n as nat) == 0);
        assert(v@ == n);
        let mut down: u64 = 0;
        while sig < FRACTION_UNIT
            invariant
                1 <= sig < SIGNIFICAND_LIMIT,
                down <= 52,
                sig as nat == n as nat * pow2(down as nat),
                pow2(0) == 1,
                pow2(1) == 2,
                pow2(52) == FRACTION_UNIT,
            decreases 52 - down,
        {
            proof {
                lemma_pow2_adds(down as nat, 1);
                if down == 52 {
                    assert(false) by (nonlinear_arith)
                        requires sig as nat == n as nat * pow2(52), n >= 1, sig < FRACTION_UNIT,
                            pow2(52) == FRACTION_UNIT;
                }
                assert(n as nat * pow2((down + 1) as nat) == (n as nat * pow2(down as nat)) * 2)
                    by (nonlinear_arith)
                    requires pow2((down + 1) as nat) == pow2(down as nat) * 2;
            }
            sig = sig * 2;
            down = down + 1;
        }
        let biased = 1075 - down;
        let b = assemble_bits(negative, biased, sig);
        proof {
            lemma_pow2_adds((biased - 1) as nat, down as nat);
            assert(sig * pow2((biased - 1) as nat) == n * pow2(1074)) by (nonlinear_arith)
                requires
                    sig as nat == n as nat * pow2(down as nat),
                    pow2(1074) == pow2((biased - 1) as nat) * pow2(down as nat),
            ;
            assert((-(v@ as int)) * pow2(1074) == -(v@ * pow2(1074))) by (nonlinear_arith);
        }
        b
    }
}


/// The sign bit of a binary32 pattern.
pub const SIGN_BIT_32: u32 = 0x8000_0000;

/// The magnitude bits of binary32 positive infinity.
pub const INFINITY_BITS_32: u32 = 0x7f80_0000;

/// 2^23: the unit of the binary32 exponent field.
pub const FRACTION_UNIT_32: u32 = 0x80_0000;

/// The binary32 pattern with its sign bit cleared.
pub open spec fn magnitude_bits_32(b: u32) -> nat {
    if b >= SIGN_BIT_32 {
        (b - SIGN_BIT_32) as nat
    } else {
        b as nat
    }
}

/// A binary32 NaN.
pub open spec fn is_nan_bits_32(b: u32) -> bool {
    magnitude_bits_32(b) > INFINITY_BITS_32
}

/// The value of a finite binary32 magnitude, in units of 2^-149.
pub open spec fn finite_magnitude_32(m: nat) -> nat {
    let e = m / (FRACTION_UNIT_32 as nat);
    let f = m % (FRACTION_UNIT_32 as nat);
    if e == 0 {
        f
    } else {
        ((f + FRACTION_UNIT_32) * pow2((e - 1) as nat)) as nat
    }
}

/// The value of a non-NaN binary32 pattern on the extended number line, in the binary64
/// units of 2^-1074 (2^-149 is 2^925 of them).
pub open spec fn extended_value_32(b: u32) -> int {
    let m = magnitude_bits_32(b);
    let r = if m >= INFINITY_BITS_32 {
        infinite_rank()
    } else {
        finite_magnitude_32(m) * pow2(925)
    };
    if b >= SIGN_BIT_32 {
        -r
    } else {
        r as int
    }
}

/// The pattern of `(v as f64)` for the binary32 value with pattern `b` (exact; a NaN stays
/// a NaN).
pub fn f32_to_f64_bits(b: u32) -> (r: u64)
    ensures
        is_nan_bits(r) == is_nan_bits_32(b),
        !is_nan_bits_32(b) ==> extended_value(r) == extended_value_32(b),
{
    let negative = b >= SIGN_BIT_32;
    let m = if negative { b - SIGN_BIT_32 } else { b };
    let sign: u64 = if negative { SIGN_BIT } else { 0 };
    proof {
        lemma_pow2_52();
        lemma2_to64();
    }
    if m > INFINITY_BITS_32 {
        return sign + 0x7ff8_0000_0000_0000;
    }
    if m == INFINITY_BITS_32 {
        return sign + INFINITY_BITS;
    }
    if m == 0 {
        proof {
            assert(magnitude_bits(sign) == 0);
            assert(finite_magnitude(0) == 0);
            assert(finite_magnitude_32(0) == 0);
            assert(finite_magnitude_32(0) * pow2(925) == 0) by (nonlinear_arith)
                requires finite_magnitude_32(0) == 0;
            assert(extended_value_32(b) == 0);
            assert(extended_value(sign) == 0);
        }
        return sign;
    }
    let e = m / FRACTION_UNIT_32;
    let f = m % FRACTION_UNIT_32;
    if e > 0 {
        let sig = (f as u64) * 0x2000_0000 + FRACTION_UNIT;
        let biased = (e as u64) + 896;
        let r = assemble_bits(negative, biased, sig);
        proof {
            lemma_pow2_adds(29, (e + 895) as nat);
            lemma_pow2_adds((e - 1) as nat, 925);
            lemma2_to64();
            assert(pow2(29) == 0x2000_0000);
            let x = pow2((e + 924) as nat);
            assert(biased - 1 == e + 895);
            assert(sig * pow2((biased - 1) as nat) == (f + FRACTION_UNIT_32) * pow2((e - 1) as nat) * pow2(925))
                by (nonlinear_arith)
                requires
                    sig == f * 0x2000_0000 + 0x10_0000_0000_0000,
                    pow2(29) * pow2((biased - 1) as nat) == x,
                    pow2((e - 1) as nat) * pow2(925) == x,
                    pow2(29) == 0x2000_0000,
                    FRACTION_UNIT_32 == 0x80_0000,
            ;
            assert(-(sig * pow2((biased - 1) as nat)) == -((f + FRACTION_UNIT_32) * pow2((e - 1) as nat) * pow2(925)));
        }
        r
    } else {
        let mut sig: u64 = f as u64;
        let mut t: u64 = 0;
        while sig < FRACTION_UNIT
            invariant
                1 <= sig < 2 * FRACTION_UNIT,
                t <= 52,
                sig as nat == f as nat * pow2(t as nat),
                f < FRACTION_UNIT_32,
                pow2(0) == 1,
                pow2(1) == 2,
                pow2(52) == FRACTION_UNIT,
            decreases 52 - t,
        {
            proof {
                lemma_pow2_adds(t as nat, 1);
                if t == 52 {
                    assert(false) by (nonlinear_arith)
                        requires sig as nat == f as nat * pow2(52), f >= 1, sig < FRACTION_UNIT,
                            pow2(52) == FRACTION_UNIT;
                }
                assert(f as nat * pow2((t + 1) as nat) == (f as nat * pow2(t as nat)) * 2)
                    by (nonlinear_arith)
                    requires pow2((t + 1) as nat) == pow2(t as nat) * 2;
            }
            sig = sig * 2;
            t = t + 1;
        }
        proof {
            if t < 30 {
                lemma_pow2_monotone(t as nat, 29);
                assert(pow2(29) == 0x2000_0000);
                assert(false) by (nonlinear_arith)
                    requires sig as nat == f as nat * pow2(t as nat), f < 0x80_0000,
                        pow2(t as nat) <= 0x2000_0000, sig >= FRACTION_UNIT;
            }
        }
        let biased = 926 - t;
        let r = assemble_bits(negative, biased, sig);
        proof {
            lemma_pow2_adds((biased - 1) as nat, t as nat);
            assert(sig * pow2((biased - 1) as nat) == f * pow2(925)) by (nonlinear_arith)
                requires
                    sig as nat == f as nat * pow2(t as nat),
                    pow2(925) == pow2((biased - 1) as nat) * pow2(t as nat),
            ;
            assert(finite_magnitude_32(m as nat) == f);
        }
        r
    }
}

} // verus!
