//! IEEE-754 binary32 words and the operations on them that need no rounding.

use vstd::arithmetic::power2::{lemma_pow2_pos, lemma_pow2_strictly_increases, lemma_pow2_unfold, pow2};
use vstd::prelude::*;

verus! {

/// The word of `+0.0`: a silent sample.
pub const SILENCE: u32 = 0;

/// The word of `1.0`.
pub const UNITY: u32 = 0x3f80_0000;

/// The word of `-1.0`.
pub const NEG_UNITY: u32 = 0xbf80_0000;

/// The sign bit of a word.
pub const SIGN_BIT: u32 = 0x8000_0000;

/// The word of positive infinity; every larger magnitude is a NaN.
pub const INFINITY: u32 = 0x7f80_0000;

/// The word with its sign bit cleared.
pub open spec fn magnitude(bits: u32) -> u32 {
    if bits >= SIGN_BIT {
        (bits - SIGN_BIT) as u32
    } else {
        bits
    }
}

/// Whether the sign bit is set (true of `-0.0` too).
pub open spec fn is_negative(bits: u32) -> bool {
    bits >= SIGN_BIT
}

/// Whether the word is a NaN.
pub open spec fn is_nan(bits: u32) -> bool {
    magnitude(bits) > INFINITY
}

/// An integer that orders the words which are not NaN as their values are
/// ordered: both zeros map to 0, and a larger value has a larger key.
pub open spec fn order_key(bits: u32) -> int {
    if is_negative(bits) {
        -(magnitude(bits) as int)
    } else {
        magnitude(bits) as int
    }
}

/// The comparison `a < b` of the two values: false when either is a NaN.
pub open spec fn less_than(a: u32, b: u32) -> bool {
    !is_nan(a) && !is_nan(b) && order_key(a) < order_key(b)
}

/// The comparison `a <= b` of the two values: false when either is a NaN.
pub open spec fn at_most(a: u32, b: u32) -> bool {
    !is_nan(a) && !is_nan(b) && order_key(a) <= order_key(b)
}

/// The value `x` restricted to the interval from `lo` to `hi`: `lo` where
/// `x < lo`, `hi` where `x > hi`, and `x` itself otherwise, so a NaN stays
/// the NaN it is and a zero keeps its sign.
pub open spec fn clamped(x: u32, lo: u32, hi: u32) -> u32 {
    if less_than(x, lo) {
        lo
    } else if less_than(hi, x) {
        hi
    } else {
        x
    }
}

/// Whether the value lies in `[-1, 1]`.
pub open spec fn in_unit_range(bits: u32) -> bool {
    magnitude(bits) <= UNITY
}

/// Clears the sign bit.
pub fn abs_bits(bits: u32) -> (r: u32)
    ensures
        r == magnitude(bits),
{
    if bits >= SIGN_BIT {
        bits - SIGN_BIT
    } else {
        bits
    }
}

/// Tells a NaN from a number.
pub fn nan_bits(bits: u32) -> (r: bool)
    ensures
        r == is_nan(bits),
{
    abs_bits(bits) > INFINITY
}

/// The order key of a word, as a machine integer.
fn key_of(bits: u32) -> (r: i64)
    ensures
        r == order_key(bits),
{
    let m: u32 = abs_bits(bits);
    if bits >= SIGN_BIT {
        0i64 - (m as i64)
    } else {
        m as i64
    }
}

/// Compares two values as `<` does.
pub fn lt_bits(a: u32, b: u32) -> (r: bool)
    ensures
        r == less_than(a, b),
{
    !nan_bits(a) && !nan_bits(b) && key_of(a) < key_of(b)
}

/// Restricts `x` to the interval from `lo` to `hi`.
///
/// The bounds must be numbers with `lo <= hi`.
pub fn clamp_bits(x: u32, lo: u32, hi: u32) -> (r: u32)
    requires
        at_most(lo, hi),
    ensures
        r == clamped(x, lo, hi),
{
    if lt_bits(x, lo) {
        lo
    } else if lt_bits(hi, x) {
        hi
    } else {
        x
    }
}

/// Restricts a sample to `[-1, 1]`.
pub fn clamp_unit(x: u32) -> (r: u32)
    ensures
        r == clamped(x, NEG_UNITY, UNITY),
        !is_nan(x) ==> in_unit_range(r),
        in_unit_range(x) ==> r == x,
        is_nan(x) ==> r == x,
{
    clamp_bits(x, NEG_UNITY, UNITY)
}

/// A clamped number lies between the bounds; only a NaN escapes them.
pub proof fn clamp_stays_within(x: u32, lo: u32, hi: u32)
    requires
        at_most(lo, hi),
        !is_nan(x),
    ensures
        at_most(lo, clamped(x, lo, hi)),
        at_most(clamped(x, lo, hi), hi),
{
}

/// Clamping twice changes nothing more, and a value inside the bounds is
/// handed back as it came.
pub proof fn clamp_is_idempotent(x: u32, lo: u32, hi: u32)
    requires
        at_most(lo, hi),
    ensures
        clamped(clamped(x, lo, hi), lo, hi) == clamped(x, lo, hi),
        at_most(lo, x) && at_most(x, hi) ==> clamped(x, lo, hi) == x,
{
}

/// The exponent field of a word: bits 23 to 30.
pub open spec fn exponent_field(bits: u32) -> int {
    magnitude(bits) as int / 0x80_0000
}

/// The fraction field of a word: bits 0 to 22.
pub open spec fn fraction_field(bits: u32) -> int {
    magnitude(bits) as int % 0x80_0000
}

/// The integer `m` of a word that is read as `m * 2^e`: the fraction of a
/// subnormal word, and the fraction under a leading one otherwise.
pub open spec fn significand_of(bits: u32) -> int {
    if exponent_field(bits) == 0 {
        fraction_field(bits)
    } else {
        0x80_0000 + fraction_field(bits)
    }
}

/// The exponent `e` of a word that is read as `m * 2^e`.
pub open spec fn binary_exponent_of(bits: u32) -> int {
    if exponent_field(bits) == 0 {
        -149
    } else {
        exponent_field(bits) - 150
    }
}

/// The absolute value of an integer.
pub open spec fn abs_int(v: int) -> int {
    if v < 0 {
        -v
    } else {
        v
    }
}

/// Whether `bits` is the word of the ratio `num / 2^scale`, exactly: `+0.0`
/// for zero, and otherwise the normal number with the sign of `num` whose
/// significand `2^23 + fraction` and exponent `e` give
/// `(2^23 + fraction) * 2^(e - 150) == |num| / 2^scale`.
pub open spec fn is_word_of_ratio(bits: u32, num: int, scale: nat) -> bool {
    if num == 0 {
        bits == SILENCE
    } else {
        &&& is_negative(bits) == (num < 0)
        &&& 1 <= exponent_field(bits) <= 150
        &&& (0x80_0000 + fraction_field(bits)) * pow2(scale) == abs_int(num) * pow2(
            (150 - exponent_field(bits)) as nat,
        )
    }
}

/// The word of `num / 2^scale`, for an integer of less than 24 bits: the
/// value that a conversion of `num` to binary32 followed by a division by
/// `2^scale` gives, neither of which rounds.
pub fn word_of_ratio(num: i32, scale: u32) -> (r: u32)
    requires
        scale <= 126,
        -0x100_0000 < num < 0x100_0000,
    ensures
        is_word_of_ratio(r, num as int, scale as nat),
{
    if num == 0 {
        return SILENCE;
    }
    let m: u32 = if num < 0 {
        (0 - num) as u32
    } else {
        num as u32
    };
    let mut sig: u32 = m;
    let mut exponent: u32 = 150 - scale;
    let mut shifts: u32 = 0;
    proof {
        vstd::arithmetic::power2::lemma2_to64();
    }
    while sig < 0x80_0000
        invariant
            1 <= m < 0x100_0000,
            scale <= 126,
            1 <= sig < 0x100_0000,
            shifts <= 23,
            pow2(shifts as nat) <= sig,
            exponent + shifts == 150 - scale,
            sig * pow2(scale as nat) == m * pow2((150 - exponent) as nat),
        decreases 23 - shifts,
    {
        proof {
            lemma_pow2_unfold((shifts + 1) as nat);
            if shifts >= 23 {
                vstd::arithmetic::power2::lemma2_to64();
                assert(pow2(23) == 0x80_0000);
                assert(false);
            }
            lemma_pow2_unfold((150 - exponent + 1) as nat);
            assert(2 * sig * pow2(scale as nat) == m * pow2((150 - exponent + 1) as nat))
                by (nonlinear_arith)
                requires
                    sig * pow2(scale as nat) == m * pow2((150 - exponent) as nat),
                    pow2((150 - exponent + 1) as nat) == 2 * pow2((150 - exponent) as nat),
            ;
        }
        sig = sig * 2;
        exponent = exponent - 1;
        shifts = shifts + 1;
    }
    let body: u32 = exponent * 0x80_0000 + (sig - 0x80_0000);
    let r: u32 = if num < 0 {
        SIGN_BIT + body
    } else {
        body
    };
    assert(magnitude(r) == body);
    assert(exponent_field(r) == exponent);
    assert(fraction_field(r) == sig - 0x80_0000);
    r
}

/// The word of a ratio of at most one in magnitude lies in `[-1, 1]`.
pub proof fn word_of_small_ratio_is_in_unit_range(bits: u32, num: int, scale: nat)
    requires
        is_word_of_ratio(bits, num, scale),
        abs_int(num) <= pow2(scale),
    ensures
        in_unit_range(bits),
{
    if num != 0 {
        let e = exponent_field(bits);
        let sig = 0x80_0000 + fraction_field(bits);
        let p = pow2(scale) as int;
        let q = pow2((150 - e) as nat) as int;
        let n = abs_int(num);
        lemma_pow2_pos(scale);
        vstd::arithmetic::power2::lemma2_to64();
        assert(sig <= q) by (nonlinear_arith)
            requires
                sig * p == n * q,
                0 <= n <= p,
                p > 0,
                q >= 0,
        ;
        if e > 127 {
            lemma_pow2_strictly_increases((150 - e) as nat, 23);
            assert(false);
        }
        assert(magnitude(bits) == 0x80_0000 * e + fraction_field(bits));
    }
}

/// At most one word is the word of a given ratio.
pub proof fn word_of_ratio_is_unique(a: u32, b: u32, num: int, scale: nat)
    requires
        is_word_of_ratio(a, num, scale),
        is_word_of_ratio(b, num, scale),
    ensures
        a == b,
{
    if num != 0 {
        let ea = exponent_field(a);
        let eb = exponent_field(b);
        if ea <= eb {
            lemma_same_exponent(a, b, num, scale);
        } else {
            lemma_same_exponent(b, a, num, scale);
        }
        assert(magnitude(a) == 0x80_0000 * exponent_field(a) + fraction_field(a));
        assert(magnitude(b) == 0x80_0000 * exponent_field(b) + fraction_field(b));
    }
}

proof fn lemma_same_exponent(a: u32, b: u32, num: int, scale: nat)
    requires
        num != 0,
        is_word_of_ratio(a, num, scale),
        is_word_of_ratio(b, num, scale),
        exponent_field(a) <= exponent_field(b),
    ensures
        exponent_field(a) == exponent_field(b),
        fraction_field(a) == fraction_field(b),
{
    let ea = exponent_field(a);
    let eb = exponent_field(b);
    let sa = 0x80_0000 + fraction_field(a);
    let sb = 0x80_0000 + fraction_field(b);
    let p = pow2(scale) as int;
    let pa = pow2((150 - ea) as nat) as int;
    let pb = pow2((150 - eb) as nat) as int;
    let gap = pow2((eb - ea) as nat) as int;
    let n = abs_int(num);
    lemma_pow2_pos(scale);
    lemma_pow2_pos((150 - eb) as nat);
    lemma_pow2_pos((eb - ea) as nat);
    vstd::arithmetic::power2::lemma_pow2_adds((eb - ea) as nat, (150 - eb) as nat);
    assert(pa == gap * pb);
    assert(sa == sb * gap) by (nonlinear_arith)
        requires
            sa * p == n * pa,
            sb * p == n * pb,
            pa == gap * pb,
            p > 0,
    ;
    if ea < eb {
        lemma_pow2_strictly_increases(0, (eb - ea) as nat);
        vstd::arithmetic::power2::lemma2_to64();
        assert(gap >= 2);
        assert(sb * gap >= 2 * sb) by (nonlinear_arith)
            requires
                gap >= 2,
                sb >= 0,
        ;
        assert(false);
    } else {
        vstd::arithmetic::power2::lemma2_to64();
        assert(gap == 1);
        assert(sb * gap == sb) by (nonlinear_arith)
            requires
                gap == 1,
        ;
    }
}

/// Computes `2^k`.
pub(crate) fn power_of_two(k: u32) -> (p: u128)
    requires
        k <= 64,
    ensures
        p == pow2(k as nat),
        1 <= p <= 0x1_0000_0000_0000_0000,
{
    let mut p: u128 = 1;
    let mut i: u32 = 0;
    proof {
        vstd::arithmetic::power2::lemma2_to64();
    }
    while i < k
        invariant
            i <= k <= 64,
            p == pow2(i as nat),
            1 <= p <= 0x1_0000_0000_0000_0000,
        decreases k - i,
    {
        proof {
            lemma_pow2_unfold((i + 1) as nat);
            vstd::arithmetic::power2::lemma2_to64();
            if i + 1 < 64 {
                lemma_pow2_strictly_increases((i + 1) as nat, 64);
            }
        }
        p = p * 2;
        i = i + 1;
    }
    p
}

} // verus!
