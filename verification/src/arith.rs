//! Binary32 arithmetic on sample words.
//!
//! Products, sums, quotients and roots are computed on the integers that
//! the words stand for and rounded once, to the nearest binary32 number
//! and to the even one on a tie, as the arithmetic of the format demands.
//! An operation without a result, and every operation on a NaN, hands out
//! the one quiet NaN: the format leaves the choice among the NaNs open.

use vstd::arithmetic::power2::{lemma_pow2_pos, lemma_pow2_strictly_increases, lemma_pow2_unfold, pow2};
use vstd::prelude::*;
use crate::sample::{
    abs_bits, abs_int, binary_exponent_of, is_nan, is_negative, magnitude, power_of_two,
    significand_of, INFINITY, SIGN_BIT,
};

verus! {

/// The NaN that an operation without a result hands out.
pub const QUIET_NAN: u32 = 0x7fc0_0000;

/// The integer nearest to `a / d`, and the even one of the two where `a / d`
/// lies halfway between them.
pub open spec fn nearest_even(a: int, d: int) -> int {
    let q = a / d;
    let rest = a % d;
    if 2 * rest < d {
        q
    } else if 2 * rest > d {
        q + 1
    } else if q % 2 == 0 {
        q
    } else {
        q + 1
    }
}

/// No integer lies nearer to `a / d` than `nearest_even(a, d)`, and where
/// two lie equally near, it is the even one.
pub proof fn nearest_even_is_nearest(a: int, d: int, other: int)
    requires
        d > 0,
    ensures
        abs_int(a - nearest_even(a, d) * d) <= abs_int(a - other * d),
        2 * abs_int(a - nearest_even(a, d) * d) <= d,
        2 * abs_int(a - nearest_even(a, d) * d) == d ==> nearest_even(a, d) % 2 == 0,
{
    let q = a / d;
    let rest = a % d;
    let n = nearest_even(a, d);
    vstd::arithmetic::div_mod::lemma_fundamental_div_mod(a, d);
    vstd::arithmetic::div_mod::lemma_mod_bound(a, d);
    assert(a - q * d == rest) by (nonlinear_arith)
        requires
            a == d * q + rest,
    ;
    assert(a - (q + 1) * d == rest - d) by (nonlinear_arith)
        requires
            a == d * q + rest,
    ;
    assert(a - other * d == rest + (q - other) * d) by (nonlinear_arith)
        requires
            a == d * q + rest,
    ;
    if other <= q {
        assert((q - other) * d >= 0) by (nonlinear_arith)
            requires
                q - other >= 0,
                d > 0,
        ;
        if other < q {
            assert((q - other) * d >= d) by (nonlinear_arith)
                requires
                    q - other >= 1,
                    d > 0,
            ;
        }
    } else {
        assert((q - other) * d <= -d) by (nonlinear_arith)
            requires
                q - other <= -1,
                d > 0,
        ;
        if other > q + 1 {
            assert((q - other) * d <= -2 * d) by (nonlinear_arith)
                requires
                    q - other <= -2,
                    d > 0,
            ;
        }
    }
}

/// The number of binary digits of a positive integer, and 0 for others.
pub open spec fn bit_length(m: int) -> int
    decreases m,
{
    if m <= 0 {
        0
    } else {
        1 + bit_length(m / 2)
    }
}

/// The exponent of the steps in which binary32 counts near `m * 2^e`:
/// 23 below the exponent of its leading digit, but not below -149, where
/// the subnormal numbers end.
pub open spec fn grid_exponent(m: int, e: int) -> int {
    let top = e + bit_length(m) - 24;
    if top < -149 {
        -149
    } else {
        top
    }
}

/// The number of steps of its grid that is nearest to `m * 2^e`.
pub open spec fn grid_steps(m: int, e: int) -> int {
    let g = grid_exponent(m, e);
    if g <= e {
        m * pow2((e - g) as nat)
    } else {
        nearest_even(m, pow2((g - e) as nat) as int)
    }
}

/// The magnitude of the word nearest to `m * 2^e`, for a positive `m`:
/// infinity where the nearest number would lie beyond the largest.
pub open spec fn rounded_magnitude(m: int, e: int) -> int {
    let mag = (grid_exponent(m, e) + 149) * 0x80_0000 + grid_steps(m, e);
    if mag >= INFINITY {
        INFINITY as int
    } else {
        mag
    }
}

/// A magnitude with a sign put on it.
pub open spec fn with_sign(negative: bool, mag: int) -> u32 {
    if negative {
        (SIGN_BIT + mag) as u32
    } else {
        mag as u32
    }
}

/// The bounds that the digits of a positive integer set on it.
pub proof fn bit_length_bounds(m: int)
    requires
        m > 0,
    ensures
        bit_length(m) >= 1,
        pow2((bit_length(m) - 1) as nat) <= m < pow2(bit_length(m) as nat),
    decreases m,
{
    vstd::arithmetic::power2::lemma2_to64();
    if m == 1 {
        assert(bit_length(0) == 0);
        assert(bit_length(1) == 1);
    } else {
        bit_length_bounds(m / 2);
        let l = bit_length(m / 2);
        lemma_pow2_unfold(l as nat);
        lemma_pow2_unfold((l + 1) as nat);
    }
}

/// An integer below `2^n` has at most `n` digits.
pub proof fn bit_length_is_monotonic(m: int, n: nat)
    requires
        0 < m < pow2(n),
    ensures
        bit_length(m) <= n,
{
    bit_length_bounds(m);
    if bit_length(m) > n {
        if bit_length(m) - 1 > n {
            lemma_pow2_strictly_increases(n, (bit_length(m) - 1) as nat);
        }
    }
}

/// An integer from `2^(n-1)` up to `2^n` has `n` digits.
pub proof fn bit_length_from_bounds(m: int, n: nat)
    requires
        n >= 1,
        pow2((n - 1) as nat) <= m < pow2(n),
    ensures
        bit_length(m) == n,
{
    lemma_pow2_pos((n - 1) as nat);
    bit_length_bounds(m);
    let l = bit_length(m);
    if l < n {
        if l < n - 1 {
            lemma_pow2_strictly_increases(l as nat, (n - 1) as nat);
        }
    } else if l > n {
        if l - 1 > n {
            lemma_pow2_strictly_increases(n, (l - 1) as nat);
        }
    }
}

/// Counts the binary digits of an integer.
fn count_bits(m: u128) -> (l: u32)
    ensures
        l == bit_length(m as int),
        l <= 128,
{
    let mut rest: u128 = m;
    let mut l: u32 = 0;
    proof {
        vstd::arithmetic::power2::lemma2_to64();
    }
    while rest > 0
        invariant
            l <= 128,
            bit_length(m as int) == l + bit_length(rest as int),
            rest * pow2(l as nat) <= m,
        decreases rest,
    {
        proof {
            lemma_pow2_unfold((l + 1) as nat);
            assert((rest / 2) * (2 * pow2(l as nat)) <= rest * pow2(l as nat)) by (nonlinear_arith)
                requires
                    rest >= 0,
                    pow2(l as nat) >= 0,
            ;
            if l >= 128 {
                vstd::arithmetic::power2::lemma2_to64();
                vstd::arithmetic::power2::lemma_pow2_adds(64, 64);
                if l > 128 {
                    lemma_pow2_strictly_increases(128, l as nat);
                }
                assert(rest * pow2(l as nat) >= pow2(l as nat)) by (nonlinear_arith)
                    requires
                        rest >= 1,
                        pow2(l as nat) >= 0,
                ;
                assert(false);
            }
        }
        rest = rest / 2;
        l = l + 1;
    }
    l
}

/// Computes `2^k` for an exponent of up to 126.
fn power_of_two_wide(k: u32) -> (p: u128)
    requires
        k <= 126,
    ensures
        p == pow2(k as nat),
        1 <= p <= 0x4000_0000_0000_0000_0000_0000_0000_0000,
{
    let low: u32 = if k <= 63 {
        k
    } else {
        63
    };
    let a: u128 = power_of_two(low);
    let b: u128 = power_of_two(k - low);
    proof {
        vstd::arithmetic::power2::lemma2_to64();
        vstd::arithmetic::power2::lemma2_to64_rest();
        vstd::arithmetic::power2::lemma_pow2_adds(low as nat, (k - low) as nat);
        if low < 63 {
            lemma_pow2_strictly_increases(low as nat, 63);
        }
        if k - low < 63 {
            lemma_pow2_strictly_increases((k - low) as nat, 63);
        }
        assert(a * b <= 0x8000_0000_0000_0000 * 0x8000_0000_0000_0000) by (nonlinear_arith)
            requires
                0 <= a <= 0x8000_0000_0000_0000,
                0 <= b <= 0x8000_0000_0000_0000,
        ;
        assert(a * b >= 1) by (nonlinear_arith)
            requires
                a >= 1,
                b >= 1,
        ;
    }
    a * b
}

/// Divides and rounds to the nearest integer, to the even one on a tie.
fn divide_to_nearest_even(m: u128, d: u128) -> (r: u128)
    requires
        0 < d <= 0x4000_0000_0000_0000_0000_0000_0000_0000,
        m < 0x4000_0000_0000_0000_0000_0000_0000_0000,
    ensures
        r == nearest_even(m as int, d as int),
        r <= m + 1,
{
    let q: u128 = m / d;
    let rest: u128 = m % d;
    assert(q <= m) by (nonlinear_arith)
        requires
            q == m / d,
            d >= 1,
            m >= 0,
    ;
    if 2 * rest < d {
        q
    } else if 2 * rest > d {
        q + 1
    } else if q % 2 == 0 {
        q
    } else {
        q + 1
    }
}

/// Puts a sign on a magnitude.
fn signed(negative: bool, mag: u32) -> (r: u32)
    requires
        mag <= INFINITY,
    ensures
        r == with_sign(negative, mag as int),
        magnitude(r) == mag,
        is_negative(r) == negative,
{
    if negative {
        SIGN_BIT + mag
    } else {
        mag
    }
}

/// Rounds `m * 2^e` to the nearest word and puts the sign on it.
fn round_pack(negative: bool, m: u128, e: i64) -> (r: u32)
    requires
        0 < m < 0x10_0000_0000_0000_0000_0000_0000,
        -400 <= e <= 400,
    ensures
        r == with_sign(negative, rounded_magnitude(m as int, e as int)),
{
    let l: i64 = count_bits(m) as i64;
    proof {
        bit_length_bounds(m as int);
        vstd::arithmetic::power2::lemma2_to64();
        vstd::arithmetic::power2::lemma_pow2_adds(64, 36);
        assert(pow2(36) == 0x10_0000_0000) by {
            vstd::arithmetic::power2::lemma2_to64_rest();
        }
        assert(pow2(100) == 0x10_0000_0000_0000_0000_0000_0000);
        bit_length_is_monotonic(m as int, 100);
    }
    let top: i64 = e + l - 24;
    let g: i64 = if top < -149 {
        -149
    } else {
        top
    };
    assert(g == grid_exponent(m as int, e as int));
    if g + 149 >= 255 {
        proof {
            let steps = grid_steps(m as int, e as int);
            if g <= e {
                lemma_pow2_pos((e - g) as nat);
                assert(steps >= 0) by (nonlinear_arith)
                    requires
                        steps == m * pow2((e - g) as nat),
                        m >= 0,
                ;
            } else {
                lemma_pow2_pos((g - e) as nat);
                let d = pow2((g - e) as nat) as int;
                assert(m as int / d >= 0) by (nonlinear_arith)
                    requires
                        m >= 0,
                        d > 0,
                ;
            }
            assert((g + 149) * 0x80_0000 + steps >= INFINITY);
        }
        return signed(negative, INFINITY);
    }
    let steps: u128 = if g <= e {
        let k: u32 = (e - g) as u32;
        let p: u128 = power_of_two(k);
        proof {
            vstd::arithmetic::power2::lemma_pow2_adds(l as nat, k as nat);
            if l + k < 24 {
                lemma_pow2_strictly_increases((l + k) as nat, 24);
            }
            assert(m * p < pow2((l + k) as nat)) by (nonlinear_arith)
                requires
                    m < pow2(l as nat),
                    p == pow2(k as nat),
                    p > 0,
                    pow2((l + k) as nat) == pow2(l as nat) * pow2(k as nat),
            ;
        }
        m * p
    } else {
        let shift: i64 = g - e;
        if shift > 126 {
            proof {
                let d = pow2(shift as nat) as int;
                vstd::arithmetic::power2::lemma_pow2_adds(100, 2);
                if shift > 102 {
                    lemma_pow2_strictly_increases(102, shift as nat);
                }
                assert(4 * m < d);
                vstd::arithmetic::div_mod::lemma_fundamental_div_mod_converse(
                    m as int,
                    d,
                    0,
                    m as int,
                );
            }
            0
        } else {
            let d: u128 = power_of_two_wide(shift as u32);
            divide_to_nearest_even(m, d)
        }
    };
    assert(steps == grid_steps(m as int, e as int));
    let mag: u128 = ((g + 149) as u128) * 0x80_0000 + steps;
    if mag >= INFINITY as u128 {
        signed(negative, INFINITY)
    } else {
        signed(negative, mag as u32)
    }
}

/// Whether the word is a zero of either sign.
pub open spec fn is_zero(bits: u32) -> bool {
    magnitude(bits) == 0
}

/// Whether the word is an infinity of either sign.
pub open spec fn is_infinite(bits: u32) -> bool {
    magnitude(bits) == INFINITY
}

/// The product of two words: the exact product of their values, rounded
/// once.  Its sign is the product of the signs, for zeros and infinities
/// too; infinity times zero has no value, and a NaN gives a NaN.
pub open spec fn product_of(a: u32, b: u32) -> u32 {
    let negative = is_negative(a) != is_negative(b);
    if is_nan(a) || is_nan(b) {
        QUIET_NAN
    } else if is_infinite(a) || is_infinite(b) {
        if is_zero(a) || is_zero(b) {
            QUIET_NAN
        } else {
            with_sign(negative, INFINITY as int)
        }
    } else if is_zero(a) || is_zero(b) {
        with_sign(negative, 0)
    } else {
        with_sign(
            negative,
            rounded_magnitude(
                significand_of(a) * significand_of(b),
                binary_exponent_of(a) + binary_exponent_of(b),
            ),
        )
    }
}

/// Splits a finite magnitude into the integer and the exponent it is
/// read as.
fn decompose(m: u32) -> (r: (u32, i64))
    requires
        m < INFINITY,
    ensures
        r.0 == significand_of(m),
        r.1 == binary_exponent_of(m),
        r.0 < 0x100_0000,
        -149 <= r.1 <= 104,
        m > 0 ==> r.0 > 0,
        r.1 > -149 ==> r.0 >= 0x80_0000,
{
    assert(magnitude(m) == m);
    let field: u32 = m / 0x80_0000;
    let fraction: u32 = m % 0x80_0000;
    if field == 0 {
        (fraction, -149)
    } else {
        (0x80_0000 + fraction, (field as i64) - 150)
    }
}

/// Multiplies two words.
pub fn mul_bits(a: u32, b: u32) -> (r: u32)
    ensures
        r == product_of(a, b),
{
    let negative: bool = (a >= SIGN_BIT) != (b >= SIGN_BIT);
    let ma: u32 = abs_bits(a);
    let mb: u32 = abs_bits(b);
    if ma > INFINITY || mb > INFINITY {
        return QUIET_NAN;
    }
    if ma == INFINITY || mb == INFINITY {
        if ma == 0 || mb == 0 {
            return QUIET_NAN;
        }
        return signed(negative, INFINITY);
    }
    if ma == 0 || mb == 0 {
        return signed(negative, 0);
    }
    let (sa, ea) = decompose(ma);
    let (sb, eb) = decompose(mb);
    proof {
        assert(significand_of(a) == sa && binary_exponent_of(a) == ea);
        assert(significand_of(b) == sb && binary_exponent_of(b) == eb);
        assert(sa * sb < 0x100_0000 * 0x100_0000) by (nonlinear_arith)
            requires
                0 <= sa < 0x100_0000,
                0 <= sb < 0x100_0000,
        ;
        assert(sa * sb > 0) by (nonlinear_arith)
            requires
                sa > 0,
                sb > 0,
        ;
    }
    round_pack(negative, (sa as u128) * (sb as u128), ea + eb)
}

/// An integer with a sign put on it.
pub open spec fn signed_int(negative: bool, m: int) -> int {
    if negative {
        -m
    } else {
        m
    }
}

/// The sum of two finite numbers, each given by its sign, the integer it
/// is read as and its exponent: the exact sum, rounded once.  A sum of
/// zero is `+0.0`, but for two negative zeros.
pub open spec fn finite_sum(an: bool, asig: int, ae: int, bn: bool, bsig: int, be: int) -> u32 {
    let e = if ae <= be {
        ae
    } else {
        be
    };
    let s = signed_int(an, asig) * pow2((ae - e) as nat) + signed_int(bn, bsig) * pow2(
        (be - e) as nat,
    );
    if s == 0 {
        if an && bn {
            SIGN_BIT
        } else {
            0
        }
    } else {
        with_sign(s < 0, rounded_magnitude(abs_int(s), e))
    }
}

/// The sum of two words: the exact sum of their values, rounded once.
/// Infinities of opposite sign have no sum, and a NaN gives a NaN.
pub open spec fn sum_of(a: u32, b: u32) -> u32 {
    if is_nan(a) || is_nan(b) {
        QUIET_NAN
    } else if is_infinite(a) {
        if is_infinite(b) && is_negative(a) != is_negative(b) {
            QUIET_NAN
        } else {
            a
        }
    } else if is_infinite(b) {
        b
    } else {
        finite_sum(
            is_negative(a),
            significand_of(a),
            binary_exponent_of(a),
            is_negative(b),
            significand_of(b),
            binary_exponent_of(b),
        )
    }
}

/// The word with its sign turned.
pub open spec fn negated(bits: u32) -> u32 {
    if is_negative(bits) {
        (bits - SIGN_BIT) as u32
    } else {
        (bits + SIGN_BIT) as u32
    }
}

/// The difference of two words: the sum of the first and the second
/// with its sign turned.
pub open spec fn difference_of(a: u32, b: u32) -> u32 {
    sum_of(a, negated(b))
}

/// A number that is more than `2^64` times smaller than a normal one
/// leaves it unchanged in a sum.
proof fn lemma_far_addend(hn: bool, hs: int, he: int, ln: bool, ls: int, le: int)
    requires
        0x80_0000 <= hs < 0x100_0000,
        0 <= ls < 0x100_0000,
        -149 <= le,
        he - le > 64,
        he <= 104,
    ensures
        finite_sum(hn, hs, he, ln, ls, le) == with_sign(hn, (he + 149) * 0x80_0000 + hs),
{
    let diff = (he - le) as nat;
    let big = pow2(diff) as int;
    vstd::arithmetic::power2::lemma2_to64();
    lemma_pow2_strictly_increases(64, diff);
    assert(pow2(0) == 1);
    let s = signed_int(hn, hs) * big + signed_int(ln, ls) * 1;
    assert(hs * big >= 0x80_0000 * big) by (nonlinear_arith)
        requires
            hs >= 0x80_0000,
            big >= 0,
    ;
    assert(hs * big < 0x100_0000 * big) by (nonlinear_arith)
        requires
            hs < 0x100_0000,
            big > 0,
    ;
    vstd::arithmetic::power2::lemma_pow2_adds(23, diff);
    vstd::arithmetic::power2::lemma_pow2_adds(24, diff);
    vstd::arithmetic::power2::lemma_pow2_adds(22, diff);
    let tail = if hn == ln {
        ls
    } else {
        -ls
    };
    let m = hs * big + tail;
    assert(signed_int(hn, hs) * big == signed_int(hn, hs * big)) by (nonlinear_arith)
        requires
            signed_int(hn, hs) == if hn {
                -hs
            } else {
                hs
            },
            signed_int(hn, hs * big) == if hn {
                -(hs * big)
            } else {
                hs * big
            },
    ;
    assert(s == signed_int(hn, m));
    assert(m > 0);
    assert(abs_int(s) == m);
    assert((s < 0) == hn);
    if tail >= 0 {
        // the addend is absorbed by the rounding
        assert(m < 0x100_0000 * big) by (nonlinear_arith)
            requires
                m == hs * big + tail,
                hs + 1 <= 0x100_0000,
                0 <= tail < big,
        ;
        bit_length_from_bounds(m, 24 + diff);
        assert(grid_exponent(m, le) == he);
        vstd::arithmetic::div_mod::lemma_fundamental_div_mod_converse(m, big, hs, tail);
        assert(nearest_even(m, big) == hs);
    } else if hs > 0x80_0000 {
        assert(m == (hs - 1) * big + (big + tail)) by (nonlinear_arith)
            requires
                m == hs * big + tail,
        ;
        assert((hs - 1) * big >= 0x80_0000 * big) by (nonlinear_arith)
            requires
                hs - 1 >= 0x80_0000,
                big >= 0,
        ;
        bit_length_from_bounds(m, 24 + diff);
        assert(grid_exponent(m, le) == he);
        vstd::arithmetic::div_mod::lemma_fundamental_div_mod_converse(
            m,
            big,
            hs - 1,
            big + tail,
        );
        assert(nearest_even(m, big) == hs);
    } else {
        // the sum falls just below a power of two, where the steps are
        // half as wide, and is rounded up to it
        let half = pow2((diff - 1) as nat) as int;
        lemma_pow2_unfold(diff);
        assert(big == 2 * half);
        lemma_pow2_strictly_increases(63, (diff - 1) as nat);
        assert(m == (0x100_0000 - 1) * half + (half + tail)) by (nonlinear_arith)
            requires
                m == hs * big + tail,
                hs == 0x80_0000,
                big == 2 * half,
        ;
        assert(m >= 0x40_0000 * big) by (nonlinear_arith)
            requires
                m == 0x80_0000 * big + tail,
                tail > -big,
                big > 0,
        ;
        bit_length_from_bounds(m, 23 + diff);
        assert(grid_exponent(m, le) == he - 1);
        vstd::arithmetic::div_mod::lemma_fundamental_div_mod_converse(
            m,
            half,
            0x100_0000 - 1,
            half + tail,
        );
        assert(nearest_even(m, half) == 0x100_0000);
    }
}

/// Adds two finite numbers of which the first has the exponent that is
/// not the smaller; `high` is the word of the first.
fn add_ordered(hn: bool, hs: u32, he: i64, ln: bool, ls: u32, le: i64, high: u32) -> (r: u32)
    requires
        hs < 0x100_0000,
        ls < 0x100_0000,
        -149 <= le <= he <= 104,
        he > -149 ==> hs >= 0x80_0000,
        magnitude(high) < INFINITY,
        high == with_sign(hn, (he + 149) * 0x80_0000 + hs),
    ensures
        r == finite_sum(hn, hs as int, he as int, ln, ls as int, le as int),
{
    let diff: i64 = he - le;
    if diff > 64 {
        proof {
            lemma_far_addend(hn, hs as int, he as int, ln, ls as int, le as int);
        }
        return high;
    }
    let p: u128 = power_of_two(diff as u32);
    proof {
        vstd::arithmetic::power2::lemma2_to64();
        assert(pow2(0) == 1);
        assert(hs * p <= 0x100_0000 * 0x1_0000_0000_0000_0000) by (nonlinear_arith)
            requires
                0 <= hs <= 0x100_0000,
                0 <= p <= 0x1_0000_0000_0000_0000,
        ;
    }
    let big: i128 = ((hs as u128) * p) as i128;
    let first: i128 = if hn {
        0 - big
    } else {
        big
    };
    let second: i128 = if ln {
        0 - (ls as i128)
    } else {
        ls as i128
    };
    let s: i128 = first + second;
    proof {
        assert(signed_int(hn, hs as int) * pow2(diff as nat) == first) by (nonlinear_arith)
            requires
                big == hs * pow2(diff as nat),
                first == if hn {
                    -(big as int)
                } else {
                    big as int
                },
                signed_int(hn, hs as int) == if hn {
                    -(hs as int)
                } else {
                    hs as int
                },
        ;
        let one = pow2(0) as int;
        let small = signed_int(ln, ls as int);
        assert(small * one == small) by (nonlinear_arith)
            requires
                one == 1,
        ;
        assert(small == second);
    }
    if s == 0 {
        return if hn && ln {
            SIGN_BIT
        } else {
            0
        };
    }
    let m: u128 = if s < 0 {
        (0 - s) as u128
    } else {
        s as u128
    };
    round_pack(s < 0, m, le)
}

/// Adds two words.
pub fn add_bits(a: u32, b: u32) -> (r: u32)
    ensures
        r == sum_of(a, b),
{
    let ma: u32 = abs_bits(a);
    let mb: u32 = abs_bits(b);
    if ma > INFINITY || mb > INFINITY {
        return QUIET_NAN;
    }
    let an: bool = a >= SIGN_BIT;
    let bn: bool = b >= SIGN_BIT;
    if ma == INFINITY {
        if mb == INFINITY && an != bn {
            return QUIET_NAN;
        }
        return a;
    }
    if mb == INFINITY {
        return b;
    }
    let (sa, ea) = decompose(ma);
    let (sb, eb) = decompose(mb);
    proof {
        assert(significand_of(a) == sa && binary_exponent_of(a) == ea);
        assert(significand_of(b) == sb && binary_exponent_of(b) == eb);
        assert(ma == (ea + 149) * 0x80_0000 + sa);
        assert(mb == (eb + 149) * 0x80_0000 + sb);
    }
    if ea >= eb {
        add_ordered(an, sa, ea, bn, sb, eb, a)
    } else {
        add_ordered(bn, sb, eb, an, sa, ea, b)
    }
}

/// Turns the sign of a word.
pub fn neg_bits(bits: u32) -> (r: u32)
    ensures
        r == negated(bits),
{
    if bits >= SIGN_BIT {
        bits - SIGN_BIT
    } else {
        bits + SIGN_BIT
    }
}

/// Subtracts the second word from the first.
pub fn sub_bits(a: u32, b: u32) -> (r: u32)
    ensures
        r == difference_of(a, b),
{
    add_bits(a, neg_bits(b))
}

/// The word nearest to a non-negative integer.
pub open spec fn word_of_integer(n: int) -> u32 {
    if n <= 0 {
        0
    } else {
        rounded_magnitude(n, 0) as u32
    }
}

/// Converts an unsigned integer to the nearest word.
pub fn from_integer(n: u32) -> (r: u32)
    ensures
        r == word_of_integer(n as int),
{
    if n == 0 {
        return 0;
    }
    round_pack(false, n as u128, 0)
}

/// The integer part of a word's value, as a conversion to an unsigned
/// integer of 32 bits gives it: zero for a NaN and for every negative
/// value, and the largest such integer for every value beyond it.
pub open spec fn truncated_of(bits: u32) -> int {
    if is_nan(bits) || is_negative(bits) {
        0
    } else if binary_exponent_of(bits) >= 0 {
        let whole = significand_of(bits) * pow2(binary_exponent_of(bits) as nat);
        if whole > u32::MAX {
            u32::MAX as int
        } else {
            whole
        }
    } else {
        significand_of(bits) / (pow2((-binary_exponent_of(bits)) as nat) as int)
    }
}

/// Converts a word to an unsigned integer, towards zero.
pub fn truncate_bits(bits: u32) -> (r: u32)
    ensures
        r == truncated_of(bits),
{
    let m: u32 = abs_bits(bits);
    if m > INFINITY || bits >= SIGN_BIT {
        return 0;
    }
    proof {
        vstd::arithmetic::power2::lemma2_to64();
    }
    if m == INFINITY {
        proof {
            assert(crate::sample::exponent_field(bits) == 255);
            assert(crate::sample::fraction_field(bits) == 0);
            lemma_pow2_strictly_increases(32, 105);
            assert(0x80_0000 * pow2(105) > u32::MAX) by (nonlinear_arith)
                requires
                    pow2(105) > 0x1_0000_0000,
            ;
        }
        return u32::MAX;
    }
    let (sig, e) = decompose(m);
    assert(significand_of(bits) == sig && binary_exponent_of(bits) == e);
    if e >= 0 {
        if e >= 9 {
            proof {
                if e > 9 {
                    lemma_pow2_strictly_increases(9, e as nat);
                }
                assert(sig * pow2(e as nat) > u32::MAX) by (nonlinear_arith)
                    requires
                        sig >= 0x80_0000,
                        pow2(e as nat) >= 0x200,
                ;
            }
            return u32::MAX;
        }
        let p: u128 = power_of_two(e as u32);
        proof {
            if e < 8 {
                lemma_pow2_strictly_increases(e as nat, 8);
            }
            assert(sig * p <= 0xff_ffff * 0x100) by (nonlinear_arith)
                requires
                    0 <= sig <= 0xff_ffff,
                    0 < p <= 0x100,
            ;
        }
        let whole: u128 = (sig as u128) * p;
        whole as u32
    } else {
        let k: i64 = 0 - e;
        if k >= 24 {
            proof {
                if k > 24 {
                    lemma_pow2_strictly_increases(24, k as nat);
                }
                vstd::arithmetic::div_mod::lemma_fundamental_div_mod_converse(
                    sig as int,
                    pow2(k as nat) as int,
                    0,
                    sig as int,
                );
            }
            return 0;
        }
        let p: u128 = power_of_two(k as u32);
        proof {
            assert((sig as int) / (p as int) <= sig) by (nonlinear_arith)
                requires
                    sig >= 0,
                    p >= 1,
            ;
        }
        ((sig as u128) / p) as u32
    }
}

/// The exponent of the leading digit of `n / d`: the largest `t` with
/// `2^t <= n / d`, for positive `n` and `d`.
pub open spec fn ratio_exponent(n: int, d: int) -> int {
    let t = bit_length(n) - bit_length(d);
    if t >= 0 {
        if n >= d * pow2(t as nat) {
            t
        } else {
            t - 1
        }
    } else {
        if n * pow2((-t) as nat) >= d {
            t
        } else {
            t - 1
        }
    }
}

/// The exponent of the steps in which binary32 counts near
/// `n / d * 2^e`.
pub open spec fn ratio_grid_exponent(n: int, d: int, e: int) -> int {
    let top = e + ratio_exponent(n, d) - 23;
    if top < -149 {
        -149
    } else {
        top
    }
}

/// The number of steps of its grid that is nearest to `n / d * 2^e`.
pub open spec fn ratio_steps(n: int, d: int, e: int) -> int {
    let g = ratio_grid_exponent(n, d, e);
    if g <= e {
        nearest_even(n * pow2((e - g) as nat), d)
    } else {
        nearest_even(n, d * pow2((g - e) as nat))
    }
}

/// The magnitude of the word nearest to `n / d * 2^e`, for positive `n`
/// and `d`: infinity where the nearest number would lie beyond the
/// largest.
pub open spec fn rounded_ratio_magnitude(n: int, d: int, e: int) -> int {
    let mag = (ratio_grid_exponent(n, d, e) + 149) * 0x80_0000 + ratio_steps(n, d, e);
    if mag >= INFINITY {
        INFINITY as int
    } else {
        mag
    }
}

/// The quotient of two words: the exact quotient of their values, rounded
/// once.  Its sign is the quotient of the signs; zero by zero and
/// infinity by infinity have no value, and a NaN gives a NaN.
pub open spec fn quotient_of(a: u32, b: u32) -> u32 {
    let negative = is_negative(a) != is_negative(b);
    if is_nan(a) || is_nan(b) {
        QUIET_NAN
    } else if is_infinite(a) {
        if is_infinite(b) {
            QUIET_NAN
        } else {
            with_sign(negative, INFINITY as int)
        }
    } else if is_infinite(b) {
        with_sign(negative, 0)
    } else if is_zero(b) {
        if is_zero(a) {
            QUIET_NAN
        } else {
            with_sign(negative, INFINITY as int)
        }
    } else if is_zero(a) {
        with_sign(negative, 0)
    } else {
        with_sign(
            negative,
            rounded_ratio_magnitude(
                significand_of(a),
                significand_of(b),
                binary_exponent_of(a) - binary_exponent_of(b),
            ),
        )
    }
}

/// Finds the exponent of the leading digit of a ratio.
fn leading_exponent(n: u32, d: u32) -> (t: i64)
    requires
        0 < n < 0x100_0000,
        0 < d < 0x100_0000,
    ensures
        t == ratio_exponent(n as int, d as int),
        -24 <= t <= 23,
{
    let ln: i64 = count_bits(n as u128) as i64;
    let ld: i64 = count_bits(d as u128) as i64;
    proof {
        vstd::arithmetic::power2::lemma2_to64();
        bit_length_bounds(n as int);
        bit_length_bounds(d as int);
        bit_length_is_monotonic(n as int, 24);
        bit_length_is_monotonic(d as int, 24);
    }
    let t: i64 = ln - ld;
    if t >= 0 {
        let p: u128 = power_of_two(t as u32);
        proof {
            lemma_pow2_strictly_increases(t as nat, 24);
            assert(d * p < 0x100_0000 * 0x100_0000) by (nonlinear_arith)
                requires
                    0 <= d < 0x100_0000,
                    0 <= p < 0x100_0000,
            ;
        }
        if (n as u128) >= (d as u128) * p {
            t
        } else {
            t - 1
        }
    } else {
        let p: u128 = power_of_two((0 - t) as u32);
        proof {
            lemma_pow2_strictly_increases((0 - t) as nat, 24);
            assert(n * p < 0x100_0000 * 0x100_0000) by (nonlinear_arith)
                requires
                    0 <= n < 0x100_0000,
                    0 <= p < 0x100_0000,
            ;
        }
        if (n as u128) * p >= (d as u128) {
            t
        } else {
            t - 1
        }
    }
}

/// Divides the first word by the second.
pub fn div_bits(a: u32, b: u32) -> (r: u32)
    ensures
        r == quotient_of(a, b),
{
    let negative: bool = (a >= SIGN_BIT) != (b >= SIGN_BIT);
    let ma: u32 = abs_bits(a);
    let mb: u32 = abs_bits(b);
    if ma > INFINITY || mb > INFINITY {
        return QUIET_NAN;
    }
    if ma == INFINITY {
        if mb == INFINITY {
            return QUIET_NAN;
        }
        return signed(negative, INFINITY);
    }
    if mb == INFINITY {
        return signed(negative, 0);
    }
    if mb == 0 {
        if ma == 0 {
            return QUIET_NAN;
        }
        return signed(negative, INFINITY);
    }
    if ma == 0 {
        return signed(negative, 0);
    }
    let (sa, ea) = decompose(ma);
    let (sb, eb) = decompose(mb);
    assert(significand_of(a) == sa && binary_exponent_of(a) == ea);
    assert(significand_of(b) == sb && binary_exponent_of(b) == eb);
    let e: i64 = ea - eb;
    let lead: i64 = leading_exponent(sa, sb);
    let top: i64 = e + lead - 23;
    let g: i64 = if top < -149 {
        -149
    } else {
        top
    };
    assert(g == ratio_grid_exponent(sa as int, sb as int, e as int));
    proof {
        vstd::arithmetic::power2::lemma2_to64();
    }
    let steps: u128 = if g <= e {
        let j: u32 = (e - g) as u32;
        let p: u128 = power_of_two(j);
        proof {
            lemma_pow2_strictly_increases(j as nat, 48);
            vstd::arithmetic::power2::lemma2_to64_rest();
            assert(sa * p < 0x100_0000 * 0x1_0000_0000_0000) by (nonlinear_arith)
                requires
                    0 <= sa < 0x100_0000,
                    0 <= p < 0x1_0000_0000_0000,
            ;
        }
        divide_to_nearest_even((sa as u128) * p, sb as u128)
    } else {
        let k: i64 = g - e;
        if k >= 26 {
            proof {
                let d = sb * pow2(k as nat);
                if k > 26 {
                    lemma_pow2_strictly_increases(26, k as nat);
                }
                assert(d >= 0x400_0000) by (nonlinear_arith)
                    requires
                        d == sb * pow2(k as nat),
                        sb >= 1,
                        pow2(k as nat) >= 0x400_0000,
                ;
                vstd::arithmetic::div_mod::lemma_fundamental_div_mod_converse(
                    sa as int,
                    d,
                    0,
                    sa as int,
                );
            }
            0
        } else {
            let p: u128 = power_of_two(k as u32);
            proof {
                lemma_pow2_strictly_increases(k as nat, 26);
                assert(sb * p < 0x100_0000 * 0x400_0000) by (nonlinear_arith)
                    requires
                        0 <= sb < 0x100_0000,
                        0 <= p < 0x400_0000,
                ;
                assert(sb * p > 0) by (nonlinear_arith)
                    requires
                        sb > 0,
                        p > 0,
                ;
            }
            divide_to_nearest_even(sa as u128, (sb as u128) * p)
        }
    };
    assert(steps == ratio_steps(sa as int, sb as int, e as int));
    if g + 149 >= 255 {
        return signed(negative, INFINITY);
    }
    let mag: u128 = ((g + 149) as u128) * 0x80_0000 + steps;
    if mag >= INFINITY as u128 {
        signed(negative, INFINITY)
    } else {
        signed(negative, mag as u32)
    }
}

/// Whether `r` is the integer part of the square root of `n`.
pub open spec fn is_floor_root(r: int, n: int) -> bool {
    r >= 0 && r * r <= n < (r + 1) * (r + 1)
}

/// The integer part of the square root of a non-negative integer.
pub open spec fn floor_root(n: int) -> int
    decreases n,
{
    if n < 1 {
        0
    } else {
        let half = 2 * floor_root(n / 4);
        if (half + 1) * (half + 1) <= n {
            half + 1
        } else {
            half
        }
    }
}

/// `floor_root` is the integer part of the square root, and nothing else
/// is.
pub proof fn floor_root_is_the_root(n: int, r: int)
    requires
        n >= 0,
    ensures
        is_floor_root(floor_root(n), n),
        is_floor_root(r, n) ==> r == floor_root(n),
    decreases n,
{
    if n >= 1 {
        floor_root_is_the_root(n / 4, 0);
        let s = floor_root(n / 4);
        let half = 2 * s;
        assert(half * half <= n && n < (half + 2) * (half + 2)) by (nonlinear_arith)
            requires
                s >= 0,
                s * s <= n / 4 < (s + 1) * (s + 1),
                half == 2 * s,
                n >= 0,
        ;
    }
    let f = floor_root(n);
    if is_floor_root(r, n) && r != f {
        assert(false) by (nonlinear_arith)
            requires
                r >= 0,
                f >= 0,
                r * r <= n < (r + 1) * (r + 1),
                f * f <= n < (f + 1) * (f + 1),
                r != f,
        ;
    }
}

/// The integer nearest to the square root of `n`.  The root of an integer
/// never lies halfway between two integers.
pub open spec fn nearest_root(n: int) -> int {
    let r = floor_root(n);
    if n - r * r > r {
        r + 1
    } else {
        r
    }
}

/// The integer under the root and the exponent outside it: a value
/// `m * 2^e` is `m * 2^e` with an even `e`, or `2m * 2^(e-1)`.
pub open spec fn radicand(m: int, e: int) -> (int, int) {
    if e % 2 == 0 {
        (m, e)
    } else {
        (2 * m, e - 1)
    }
}

/// The magnitude of the word nearest to the square root of `m * 2^e`,
/// for a positive `m`.  The root of a binary32 number is always a normal
/// number.
pub open spec fn rounded_root_magnitude(m: int, e: int) -> int {
    let under = radicand(m, e);
    let lead = (bit_length(under.0) - 1) / 2;
    let g = under.1 / 2 + lead - 23;
    (g + 149) * 0x80_0000 + nearest_root(under.0 * pow2((2 * (23 - lead)) as nat))
}

/// The square root of a word: the exact root of its value, rounded once.
/// A negative number has none, but the negative zero, which is its own.
pub open spec fn root_of(x: u32) -> u32 {
    if is_nan(x) {
        QUIET_NAN
    } else if is_zero(x) {
        x
    } else if is_negative(x) {
        QUIET_NAN
    } else if is_infinite(x) {
        x
    } else {
        rounded_root_magnitude(significand_of(x), binary_exponent_of(x)) as u32
    }
}

/// Computes the integer part of a square root.
fn integer_root(n: u128) -> (r: u128)
    requires
        n < 0x100_0000_0000_0000_0000,
    ensures
        r == floor_root(n as int),
        r < 0x10_0000_0000,
        r * r <= n < (r + 1) * (r + 1),
{
    let mut low: u128 = 0;
    let mut high: u128 = 0x10_0000_0000;
    assert(0x10_0000_0000 * 0x10_0000_0000 == 0x100_0000_0000_0000_0000int) by (nonlinear_arith);
    while high - low > 1
        invariant
            low < high <= 0x10_0000_0000,
            low * low <= n < high * high,
        decreases high - low,
    {
        let mid: u128 = low + (high - low) / 2;
        assert(mid * mid <= 0x10_0000_0000 * 0x10_0000_0000) by (nonlinear_arith)
            requires
                0 <= mid <= 0x10_0000_0000,
        ;
        if mid * mid <= n {
            low = mid;
        } else {
            high = mid;
        }
    }
    proof {
        floor_root_is_the_root(n as int, low as int);
    }
    low
}

/// Takes the square root of a word.
pub fn sqrt_bits(x: u32) -> (r: u32)
    ensures
        r == root_of(x),
{
    let m: u32 = abs_bits(x);
    if m > INFINITY {
        return QUIET_NAN;
    }
    if m == 0 {
        return x;
    }
    if x >= SIGN_BIT {
        return QUIET_NAN;
    }
    if m == INFINITY {
        return x;
    }
    let (sig, e) = decompose(m);
    assert(significand_of(x) == sig && binary_exponent_of(x) == e);
    let (under, outside): (u128, i64) = if e % 2 == 0 {
        (sig as u128, e)
    } else {
        (2 * (sig as u128), e - 1)
    };
    assert((under as int, outside as int) == radicand(sig as int, e as int));
    let digits: i64 = count_bits(under) as i64;
    proof {
        vstd::arithmetic::power2::lemma2_to64();
        bit_length_bounds(under as int);
        bit_length_is_monotonic(under as int, 25);
    }
    let lead: i64 = (digits - 1) / 2;
    let g: i64 = outside / 2 + lead - 23;
    let shift: u32 = (2 * (23 - lead)) as u32;
    let p: u128 = power_of_two(shift);
    proof {
        vstd::arithmetic::power2::lemma2_to64_rest();
        if shift < 46 {
            lemma_pow2_strictly_increases(shift as nat, 46);
        }
        assert(under * p < 0x200_0000 * 0x4000_0000_0001) by (nonlinear_arith)
            requires
                0 <= under < 0x200_0000,
                0 <= p <= 0x4000_0000_0000,
        ;
    }
    let n: u128 = under * p;
    let root: u128 = integer_root(n);
    proof {
        // the number under the root has 47 or 48 digits, so that the root has 24
        vstd::arithmetic::power2::lemma_pow2_adds((2 * lead + 2) as nat, shift as nat);
        if digits < 2 * lead + 2 {
            lemma_pow2_strictly_increases(digits as nat, (2 * lead + 2) as nat);
        }
        assert(n < pow2(48)) by (nonlinear_arith)
            requires
                n == under * p,
                0 <= under < pow2((2 * lead + 2) as nat),
                p == pow2(shift as nat),
                p > 0,
                pow2(48) == pow2((2 * lead + 2) as nat) * pow2(shift as nat),
        ;
        assert(pow2(48) == 0x1_0000_0000_0000);
        assert(root < 0x100_0000) by (nonlinear_arith)
            requires
                root * root <= n,
                n < 0x1_0000_0000_0000,
                root >= 0,
        ;
    }
    let steps: u128 = if n - root * root > root {
        root + 1
    } else {
        root
    };
    assert(steps == nearest_root(n as int));
    let mag: u128 = ((g + 149) as u128) * 0x80_0000 + steps;
    mag as u32
}

/// Products and sums do not depend on the order of their operands.
pub proof fn arithmetic_commutes(a: u32, b: u32)
    ensures
        product_of(a, b) == product_of(b, a),
        sum_of(a, b) == sum_of(b, a),
{
    assert(significand_of(a) * significand_of(b) == significand_of(b) * significand_of(a))
        by (nonlinear_arith);
    if is_infinite(a) && is_infinite(b) && !is_nan(a) && !is_nan(b) && is_negative(a)
        == is_negative(b) {
        assert(a == b);
    }
}

/// Doubling an integer `k` times adds `k` digits to it.
proof fn lemma_bit_length_of_multiple(m: int, k: nat)
    requires
        m > 0,
    ensures
        bit_length(m * pow2(k)) == bit_length(m) + k,
{
    bit_length_bounds(m);
    let l = bit_length(m);
    let p = pow2(k) as int;
    lemma_pow2_pos(k);
    vstd::arithmetic::power2::lemma_pow2_adds((l - 1) as nat, k);
    vstd::arithmetic::power2::lemma_pow2_adds(l as nat, k);
    assert(pow2((l - 1) as nat) * p <= m * p) by (nonlinear_arith)
        requires
            pow2((l - 1) as nat) <= m,
            p > 0,
    ;
    assert(m * p < pow2(l as nat) * p) by (nonlinear_arith)
        requires
            m < pow2(l as nat),
            p > 0,
    ;
    bit_length_from_bounds(m * p, (l + k) as nat);
}

/// Rounding looks at the value alone: zeros moved from the exponent
/// into the integer change nothing.
pub proof fn rounding_depends_on_the_value(m: int, e: int, k: nat)
    requires
        m > 0,
    ensures
        rounded_magnitude(m * pow2(k), e - k) == rounded_magnitude(m, e),
{
    let p = pow2(k) as int;
    let mk = m * p;
    lemma_pow2_pos(k);
    lemma_bit_length_of_multiple(m, k);
    assert(mk > 0) by (nonlinear_arith)
        requires
            m > 0,
            p > 0,
            mk == m * p,
    ;
    let g = grid_exponent(m, e);
    assert(grid_exponent(mk, e - k) == g);
    if g <= e - k {
        let rest = pow2((e - k - g) as nat) as int;
        vstd::arithmetic::power2::lemma_pow2_adds(k, (e - k - g) as nat);
        assert(mk * rest == m * pow2((e - g) as nat)) by (nonlinear_arith)
            requires
                mk == m * p,
                pow2((e - g) as nat) == p * rest,
        ;
    } else if g <= e {
        let d = pow2((g - e + k) as nat) as int;
        let up = pow2((e - g) as nat) as int;
        lemma_pow2_pos((g - e + k) as nat);
        vstd::arithmetic::power2::lemma_pow2_adds((e - g) as nat, (g - e + k) as nat);
        assert(mk == (m * up) * d + 0) by (nonlinear_arith)
            requires
                mk == m * p,
                p == up * d,
        ;
        vstd::arithmetic::div_mod::lemma_fundamental_div_mod_converse(mk, d, m * up, 0);
    } else {
        let d = pow2((g - e) as nat) as int;
        let dk = pow2((g - e + k) as nat) as int;
        lemma_pow2_pos((g - e) as nat);
        vstd::arithmetic::power2::lemma_pow2_adds((g - e) as nat, k);
        let q = m / d;
        let r = m % d;
        vstd::arithmetic::div_mod::lemma_fundamental_div_mod(m, d);
        vstd::arithmetic::div_mod::lemma_mod_bound(m, d);
        assert(mk == q * dk + r * p) by (nonlinear_arith)
            requires
                mk == m * p,
                m == d * q + r,
                dk == d * p,
        ;
        assert(0 <= r * p < dk) by (nonlinear_arith)
            requires
                0 <= r < d,
                dk == d * p,
                p > 0,
        ;
        vstd::arithmetic::div_mod::lemma_fundamental_div_mod_converse(mk, dk, q, r * p);
        assert((2 * (r * p) < dk) == (2 * r < d)) by (nonlinear_arith)
            requires
                dk == d * p,
                p > 0,
        ;
        assert((2 * (r * p) > dk) == (2 * r > d)) by (nonlinear_arith)
            requires
                dk == d * p,
                p > 0,
        ;
    }
}

/// A number that binary32 holds is rounded to itself.
pub proof fn rounding_keeps_words(x: u32)
    requires
        !is_nan(x),
        !is_infinite(x),
        !is_zero(x),
    ensures
        rounded_magnitude(significand_of(x), binary_exponent_of(x)) == magnitude(x),
{
    let sig = significand_of(x);
    let e = binary_exponent_of(x);
    let field = crate::sample::exponent_field(x);
    let fraction = crate::sample::fraction_field(x);
    vstd::arithmetic::power2::lemma2_to64();
    assert(magnitude(x) == 0x80_0000 * field + fraction);
    if field >= 1 {
        bit_length_from_bounds(sig, 24);
    } else {
        bit_length_is_monotonic(sig, 23);
    }
    assert(grid_exponent(sig, e) == e);
    assert(sig * pow2(0) == sig) by (nonlinear_arith)
        requires
            pow2(0) == 1,
    ;
}

/// Multiplying by one changes no number.
pub proof fn one_is_neutral(x: u32)
    requires
        !is_nan(x),
    ensures
        product_of(crate::sample::UNITY, x) == x,
        product_of(x, crate::sample::UNITY) == x,
{
    let one = crate::sample::UNITY;
    vstd::arithmetic::power2::lemma2_to64();
    assert(magnitude(one) == 0x3f80_0000);
    assert(crate::sample::exponent_field(one) == 127);
    assert(crate::sample::fraction_field(one) == 0);
    arithmetic_commutes(one, x);
    if !is_infinite(x) && !is_zero(x) {
        let sig = significand_of(x);
        let e = binary_exponent_of(x);
        rounding_depends_on_the_value(sig, e, 23);
        rounding_keeps_words(x);
        assert(0x80_0000 * sig == sig * pow2(23)) by (nonlinear_arith)
            requires
                pow2(23) == 0x80_0000,
        ;
    }
}

/// Adding zero changes no number but the negative zero, which a positive
/// zero turns positive.
pub proof fn zero_is_neutral(x: u32)
    requires
        !is_nan(x),
        x != SIGN_BIT,
    ensures
        sum_of(x, 0) == x,
        sum_of(0, x) == x,
{
    vstd::arithmetic::power2::lemma2_to64();
    arithmetic_commutes(x, 0);
    assert(magnitude(0) == 0);
    assert(crate::sample::exponent_field(0) == 0);
    assert(crate::sample::fraction_field(0) == 0);
    if !is_infinite(x) && !is_zero(x) {
        let sig = significand_of(x);
        let e = binary_exponent_of(x);
        let k = (e + 149) as nat;
        let p = pow2(k) as int;
        lemma_pow2_pos(k);
        rounding_depends_on_the_value(sig, e, k);
        rounding_keeps_words(x);
        let s = signed_int(is_negative(x), sig) * p + signed_int(false, 0) * pow2(0);
        assert(signed_int(is_negative(x), sig) * p == signed_int(is_negative(x), sig * p))
            by (nonlinear_arith)
            requires
                signed_int(is_negative(x), sig) == if is_negative(x) {
                    -sig
                } else {
                    sig
                },
                signed_int(is_negative(x), sig * p) == if is_negative(x) {
                    -(sig * p)
                } else {
                    sig * p
                },
        ;
        assert(sig * p > 0) by (nonlinear_arith)
            requires
                sig > 0,
                p > 0,
        ;
        assert(s == signed_int(is_negative(x), sig * p));
        assert(abs_int(s) == sig * p);
    }
}

} // verus!
