//! Reading an IEEE-754 binary32 bit pattern with integer arithmetic.
//!
//! A pattern has a sign bit, eight bits of biased exponent and 23 bits of
//! fraction. A finite pattern stands for
//! `(-1)^sign * significand * 2^scale`.

use vstd::arithmetic::div_mod::{
    lemma_basic_div,
    lemma_div_denominator,
    lemma_div_by_multiple,
    lemma_div_is_ordered,
    lemma_div_multiples_vanish_quotient,
};
use vstd::arithmetic::power2::{
    lemma2_to64,
    lemma_pow2_adds,
    lemma_pow2_pos,
    lemma_pow2_strictly_increases,
    lemma_pow2_unfold,
    pow2,
};
use vstd::prelude::*;

verus! {

/// The sign bit: set for negative numbers, for negative zero too.
pub open spec fn is_negative(bits: u32) -> bool {
    bits >= 0x8000_0000
}

/// The exponent field, 0 to 255.
pub open spec fn biased_exponent(bits: u32) -> int {
    (bits / 0x80_0000) as int % 0x100
}

/// The fraction field, 23 bits.
pub open spec fn fraction(bits: u32) -> int {
    bits as int % 0x80_0000
}

pub open spec fn is_nan(bits: u32) -> bool {
    biased_exponent(bits) == 255 && fraction(bits) != 0
}

pub open spec fn is_infinite(bits: u32) -> bool {
    biased_exponent(bits) == 255 && fraction(bits) == 0
}

pub open spec fn is_finite(bits: u32) -> bool {
    biased_exponent(bits) != 255
}

/// The significand of a finite pattern; the leading one is implicit unless
/// the exponent field is zero.
pub open spec fn significand(bits: u32) -> int {
    if biased_exponent(bits) == 0 {
        fraction(bits)
    } else {
        0x80_0000 + fraction(bits)
    }
}

/// The power of two that scales the significand of a finite pattern.
pub open spec fn scale(bits: u32) -> int {
    if biased_exponent(bits) == 0 {
        -149
    } else {
        biased_exponent(bits) - 150
    }
}

/// The absolute value of a finite pattern in units of 2^-149, the step
/// between the two smallest patterns. In this unit every finite pattern is a
/// whole number.
pub open spec fn scaled_magnitude(bits: u32) -> int {
    significand(bits) * pow2((scale(bits) + 149) as nat)
}

/// The largest whole number that is not above the absolute value of a finite
/// pattern.
pub open spec fn magnitude_floor(bits: u32) -> int {
    scaled_magnitude(bits) / (pow2(149) as int)
}

/// A finite pattern's value with its fractional part dropped: rounding is
/// toward zero, so -0.5 gives 0 and -1.5 gives -1.
pub open spec fn integer_part(bits: u32) -> int {
    if is_negative(bits) {
        -magnitude_floor(bits)
    } else {
        magnitude_floor(bits)
    }
}

/// The floor of the absolute value with the power of two cancelled: the
/// significand times a power of two, or divided by one.
spec fn shifted_magnitude(bits: u32) -> int {
    if scale(bits) >= 0 {
        significand(bits) * pow2(scale(bits) as nat)
    } else {
        significand(bits) / (pow2((-scale(bits)) as nat) as int)
    }
}

/// `m` times two to the power of `k`, for `k` from 0 to 127, by the binary
/// digits of `k`.
pub open spec fn shifted_up(m: int, k: int) -> int {
    let a0: int = if k % 2 == 1 {
        0x2 * m
    } else {
        m
    };
    let a1: int = if k / 2 % 2 == 1 {
        0x4 * a0
    } else {
        a0
    };
    let a2: int = if k / 4 % 2 == 1 {
        0x10 * a1
    } else {
        a1
    };
    let a3: int = if k / 8 % 2 == 1 {
        0x100 * a2
    } else {
        a2
    };
    let a4: int = if k / 16 % 2 == 1 {
        0x1_0000 * a3
    } else {
        a3
    };
    let a5: int = if k / 32 % 2 == 1 {
        0x1_0000_0000 * a4
    } else {
        a4
    };
    if k / 64 % 2 == 1 {
        0x1_0000_0000_0000_0000 * a5
    } else {
        a5
    }
}

/// `m` divided by two to the power of `k` and rounded down, for `k` from 0 to
/// 31, by the binary digits of `k`.
pub open spec fn shifted_down(m: int, k: int) -> int {
    let a0: int = if k % 2 == 1 {
        m / 0x2
    } else {
        m
    };
    let a1: int = if k / 2 % 2 == 1 {
        a0 / 0x4
    } else {
        a0
    };
    let a2: int = if k / 4 % 2 == 1 {
        a1 / 0x10
    } else {
        a1
    };
    let a3: int = if k / 8 % 2 == 1 {
        a2 / 0x100
    } else {
        a2
    };
    if k / 16 % 2 == 1 {
        a3 / 0x1_0000
    } else {
        a3
    }
}

/// Two to the power of `k`, for `k` from 0 to 127, put together from the
/// binary digits of `k`.
spec fn exp2(k: int) -> int {
    let p0: int = if k % 2 == 1 {
        0x2
    } else {
        1
    };
    let p1: int = if k / 2 % 2 == 1 {
        0x4 * p0
    } else {
        p0
    };
    let p2: int = if k / 4 % 2 == 1 {
        0x10 * p1
    } else {
        p1
    };
    let p3: int = if k / 8 % 2 == 1 {
        0x100 * p2
    } else {
        p2
    };
    let p4: int = if k / 16 % 2 == 1 {
        0x1_0000 * p3
    } else {
        p3
    };
    let p5: int = if k / 32 % 2 == 1 {
        0x1_0000_0000 * p4
    } else {
        p4
    };
    if k / 64 % 2 == 1 {
        0x1_0000_0000_0000_0000 * p5
    } else {
        p5
    }
}

/// The whole part of a pattern's absolute value, read off its fields: what
/// is less than one gives zero, what has some of its significand right of
/// the point is the significand with those bits dropped, and what has all of
/// it left of the point is the significand shifted up. For an infinity this
/// is 2^128, which is above every finite pattern.
pub open spec fn whole_magnitude(bits: u32) -> int {
    let e = biased_exponent(bits);
    let m = 0x80_0000 + fraction(bits);
    if e < 127 {
        0
    } else if e < 150 {
        shifted_down(m, 150 - e)
    } else {
        shifted_up(m, e - 150)
    }
}

/// The whole part of a pattern with its sign.
pub open spec fn whole_part(bits: u32) -> int {
    if is_negative(bits) {
        -whole_magnitude(bits)
    } else {
        whole_magnitude(bits)
    }
}

/// A pattern whose exponent field is below the bias is less than one in
/// absolute value.
proof fn lemma_below_one(bits: u32)
    requires
        biased_exponent(bits) < 127,
    ensures
        shifted_magnitude(bits) == 0,
{
    let k = (-scale(bits)) as nat;
    lemma2_to64();
    if k > 24 {
        lemma_pow2_strictly_increases(24, k);
    }
    lemma_basic_div(significand(bits), pow2(k) as int);
}

proof fn lemma_shifted_is_floor(bits: u32)
    ensures
        shifted_magnitude(bits) == magnitude_floor(bits),
{
    let m = significand(bits);
    let up = (scale(bits) + 149) as nat;
    let c = pow2(up) as int;
    lemma_pow2_pos(up);
    lemma_pow2_pos(149);
    if scale(bits) >= 0 {
        let p = pow2(scale(bits) as nat) as int;
        lemma_pow2_adds(scale(bits) as nat, 149);
        assert(m * c == (m * p) * pow2(149)) by (nonlinear_arith)
            requires
                c == p * pow2(149),
        ;
        assert(m * p >= 0) by (nonlinear_arith)
            requires
                m >= 0,
                p >= 0,
        ;
        lemma_div_by_multiple(m * p, pow2(149) as int);
    } else {
        let down = (-scale(bits)) as nat;
        let d = pow2(down) as int;
        lemma_pow2_pos(down);
        lemma_pow2_adds(up, down);
        assert(pow2(149) == c * d);
        lemma_div_multiples_vanish_quotient(c, m, d);
    }
}

/// The digits of `k` give the same power of two as counting up to `k`.
proof fn lemma_exp2_is_pow2(k: int)
    requires
        0 <= k < 128,
    ensures
        exp2(k) == pow2(k as nat),
        exp2(k) > 0,
{
    lemma2_to64();
    let d0 = (k % 2) as nat;
    let d1 = ((k / 2 % 2) * 2) as nat;
    let d2 = ((k / 4 % 2) * 4) as nat;
    let d3 = ((k / 8 % 2) * 8) as nat;
    let d4 = ((k / 16 % 2) * 16) as nat;
    let d5 = ((k / 32 % 2) * 32) as nat;
    let d6 = ((k / 64 % 2) * 64) as nat;
    let s1 = d0 + d1;
    let s2 = s1 + d2;
    let s3 = s2 + d3;
    let s4 = s3 + d4;
    let s5 = s4 + d5;
    assert(s5 + d6 == k);
    let p0 = pow2(d0) as int;
    let p1 = pow2(s1) as int;
    let p2 = pow2(s2) as int;
    let p3 = pow2(s3) as int;
    let p4 = pow2(s4) as int;
    let p5 = pow2(s5) as int;
    let p6 = pow2(s5 + d6) as int;
    lemma_pow2_times(d0, d1);
    lemma_pow2_times(s1, d2);
    lemma_pow2_times(s2, d3);
    lemma_pow2_times(s3, d4);
    lemma_pow2_times(s4, d5);
    lemma_pow2_times(s5, d6);
    assert(p1 == if d1 == 2 { 0x4 * p0 } else { p0 });
    assert(p2 == if d2 == 4 { 0x10 * p1 } else { p1 });
    assert(p3 == if d3 == 8 { 0x100 * p2 } else { p2 });
    assert(p4 == if d4 == 16 { 0x1_0000 * p3 } else { p3 });
    assert(p5 == if d5 == 32 { 0x1_0000_0000 * p4 } else { p4 });
    assert(p6 == if d6 == 64 { 0x1_0000_0000_0000_0000 * p5 } else { p5 });
    lemma_pow2_pos(k as nat);
}

/// A power of two with one more term in its exponent, as a product in which
/// the new factor stands last.
proof fn lemma_pow2_times(a: nat, b: nat)
    ensures
        pow2(a + b) == pow2(b) * pow2(a),
{
    lemma_pow2_adds(a, b);
    assert(pow2(a) * pow2(b) == pow2(b) * pow2(a)) by (nonlinear_arith);
}

/// Shifting up by the digits of `k` multiplies by two to the power of `k`.
proof fn lemma_shifted_up(m: int, k: int)
    requires
        0 <= k < 128,
    ensures
        shifted_up(m, k) == m * exp2(k),
{
    let p0: int = if k % 2 == 1 { 0x2 } else { 1 };
    let p1: int = if k / 2 % 2 == 1 { 0x4 * p0 } else { p0 };
    let p2: int = if k / 4 % 2 == 1 { 0x10 * p1 } else { p1 };
    let p3: int = if k / 8 % 2 == 1 { 0x100 * p2 } else { p2 };
    let p4: int = if k / 16 % 2 == 1 { 0x1_0000 * p3 } else { p3 };
    let p5: int = if k / 32 % 2 == 1 { 0x1_0000_0000 * p4 } else { p4 };
    let p6: int = if k / 64 % 2 == 1 { 0x1_0000_0000_0000_0000 * p5 } else { p5 };
    assert(0x2 * m == m * 0x2 && m == m * 1) by (nonlinear_arith);
    assert(0x4 * (m * p0) == m * (0x4 * p0)) by (nonlinear_arith);
    assert(0x10 * (m * p1) == m * (0x10 * p1)) by (nonlinear_arith);
    assert(0x100 * (m * p2) == m * (0x100 * p2)) by (nonlinear_arith);
    assert(0x1_0000 * (m * p3) == m * (0x1_0000 * p3)) by (nonlinear_arith);
    assert(0x1_0000_0000 * (m * p4) == m * (0x1_0000_0000 * p4)) by (nonlinear_arith);
    assert(0x1_0000_0000_0000_0000 * (m * p5) == m * (0x1_0000_0000_0000_0000 * p5))
        by (nonlinear_arith);
    assert(p6 == exp2(k));
}

/// Shifting down by the digits of `k` divides by two to the power of `k`.
proof fn lemma_shifted_down(m: int, k: int)
    requires
        0 <= m,
        0 <= k < 32,
    ensures
        shifted_down(m, k) == m / exp2(k),
{
    let p0: int = if k % 2 == 1 { 0x2 } else { 1 };
    let p1: int = if k / 2 % 2 == 1 { 0x4 * p0 } else { p0 };
    let p2: int = if k / 4 % 2 == 1 { 0x10 * p1 } else { p1 };
    let p3: int = if k / 8 % 2 == 1 { 0x100 * p2 } else { p2 };
    let p4: int = if k / 16 % 2 == 1 { 0x1_0000 * p3 } else { p3 };
    assert(m / 1 == m);
    lemma_div_denominator(m, p0, 0x4);
    lemma_div_denominator(m, p1, 0x10);
    lemma_div_denominator(m, p2, 0x100);
    lemma_div_denominator(m, p3, 0x1_0000);
    assert(p0 * 0x4 == 0x4 * p0 && p1 * 0x10 == 0x10 * p1 && p2 * 0x100 == 0x100 * p2 && p3
        * 0x1_0000 == 0x1_0000 * p3);
    assert(k / 32 % 2 == 0 && k / 64 % 2 == 0);
    assert(p4 == exp2(k));
}

/// The powers of two up to the 105th, as far as a significand is ever
/// shifted.
proof fn lemma_exp2_bound(k: int)
    requires
        0 <= k <= 105,
    ensures
        0 < exp2(k) <= 0x200_0000_0000_0000_0000_0000_0000,
        k <= 104 ==> exp2(k) <= 0x100_0000_0000_0000_0000_0000_0000,
        k <= 96 ==> exp2(k) <= 0x1_0000_0000_0000_0000_0000_0000,
{
    lemma_exp2_is_pow2(k);
    lemma_exp2_is_pow2(96);
    lemma_exp2_is_pow2(104);
    lemma_exp2_is_pow2(105);
    assert(exp2(96) == 0x1_0000_0000_0000_0000_0000_0000);
    assert(exp2(104) == 0x100_0000_0000_0000_0000_0000_0000);
    assert(exp2(105) == 0x200_0000_0000_0000_0000_0000_0000);
    if k < 96 {
        lemma_pow2_strictly_increases(k as nat, 96);
    }
    if k < 104 {
        lemma_pow2_strictly_increases(k as nat, 104);
    }
    if k < 105 {
        lemma_pow2_strictly_increases(k as nat, 105);
    }
}

/// What is read off the fields of a finite pattern is the integer part of
/// the number that the pattern stands for, and it is below 2^128 in absolute
/// value.
pub proof fn lemma_whole_part_is_integer_part(bits: u32)
    requires
        is_finite(bits),
    ensures
        whole_part(bits) == integer_part(bits),
        whole_magnitude(bits) == magnitude_floor(bits),
        0 <= whole_magnitude(bits) < 0x1_0000_0000_0000_0000_0000_0000_0000_0000int,
        biased_exponent(bits) < 247 ==> whole_magnitude(bits)
            < 0x1_0000_0000_0000_0000_0000_0000_0000_00,
{
    let e = biased_exponent(bits);
    let m = significand(bits);
    lemma_shifted_is_floor(bits);
    if e < 127 {
        lemma_below_one(bits);
    } else if e < 150 {
        let d = exp2(150 - e);
        lemma_exp2_is_pow2(150 - e);
        lemma_shifted_down(m, 150 - e);
        assert(0 <= m / d <= m) by (nonlinear_arith)
            requires
                0 <= m,
                0 < d,
        ;
    } else {
        let p = exp2(e - 150);
        lemma_exp2_is_pow2(e - 150);
        lemma_exp2_bound(e - 150);
        lemma_shifted_up(m, e - 150);
        assert(0 <= m * p < 0x1_0000_0000_0000_0000_0000_0000_0000_0000int) by (nonlinear_arith)
            requires
                0 <= m < 0x100_0000,
                0 < p <= 0x100_0000_0000_0000_0000_0000_0000,
        ;
        if e < 247 {
            assert(m * p < 0x1_0000_0000_0000_0000_0000_0000_0000_00) by (nonlinear_arith)
                requires
                    0 <= m < 0x100_0000,
                    0 < p <= 0x1_0000_0000_0000_0000_0000_0000,
            ;
        }
    }
}

/// Among the finite patterns that are not negative, the larger pattern
/// stands for the larger number.
pub proof fn lemma_pattern_order(lighter: u32, heavier: u32)
    requires
        !is_negative(lighter),
        !is_negative(heavier),
        is_finite(lighter),
        is_finite(heavier),
        lighter <= heavier,
    ensures
        scaled_magnitude(lighter) <= scaled_magnitude(heavier),
        lighter < heavier ==> scaled_magnitude(lighter) < scaled_magnitude(heavier),
{
    let ea = biased_exponent(lighter);
    let eb = biased_exponent(heavier);
    let ma = significand(lighter);
    let mb = significand(heavier);
    let ua = (scale(lighter) + 149) as nat;
    let ub = (scale(heavier) + 149) as nat;
    let pa = pow2(ua) as int;
    let pb = pow2(ub) as int;
    assert(ea <= eb);
    lemma_pow2_pos(ua);
    lemma_pow2_pos(ub);
    if ea == eb {
        assert(fraction(lighter) <= fraction(heavier));
        assert(lighter < heavier ==> ma < mb);
        assert(ma * pa <= mb * pa && (ma < mb ==> ma * pa < mb * pa)) by (nonlinear_arith)
            requires
                0 <= ma <= mb,
                pa > 0,
        ;
    } else {
        // the lighter one is below 2^23 of the steps that the heavier one
        // counts in, and the heavier one is not
        assert(mb >= 0x80_0000);
        if ea == 0 {
            if ua < ub {
                lemma_pow2_strictly_increases(ua, ub);
            }
            assert(ma * pa < 0x80_0000 * pb) by (nonlinear_arith)
                requires
                    0 <= ma < 0x80_0000,
                    pa > 0,
                    pb >= pa,
            ;
        } else {
            lemma_pow2_unfold(ua + 1);
            if ua + 1 < ub {
                lemma_pow2_strictly_increases(ua + 1, ub);
            }
            assert(ma * pa < 0x80_0000 * pb) by (nonlinear_arith)
                requires
                    0 <= ma < 0x100_0000,
                    pa > 0,
                    pb >= 2 * pa,
            ;
        }
        assert(0x80_0000 * pb <= mb * pb) by (nonlinear_arith)
            requires
                mb >= 0x80_0000,
                pb > 0,
        ;
    }
}

/// Among the patterns that are not negative and stand for numbers, the
/// larger pattern has a whole part that is not smaller. The infinity counts
/// as above every finite pattern.
pub proof fn lemma_whole_part_monotonic(lighter: u32, heavier: u32)
    requires
        !is_negative(lighter),
        !is_negative(heavier),
        !is_nan(lighter),
        !is_nan(heavier),
        lighter <= heavier,
    ensures
        0 <= whole_part(lighter) <= whole_part(heavier),
{
    let unit = pow2(149) as int;
    lemma_pow2_pos(149);
    assert(biased_exponent(lighter) <= biased_exponent(heavier));
    if is_finite(lighter) {
        lemma_whole_part_is_integer_part(lighter);
    }
    if is_finite(heavier) {
        lemma_whole_part_is_integer_part(heavier);
        lemma_pattern_order(lighter, heavier);
        lemma_div_is_ordered(scaled_magnitude(lighter), scaled_magnitude(heavier), unit);
    } else {
        assert(whole_magnitude(heavier) == 0x1_0000_0000_0000_0000_0000_0000_0000_0000int);
    }
}

/// The whole part of a finite pattern's absolute value.
pub(crate) fn floor_magnitude(bits: u32) -> (magnitude: u128)
    requires
        is_finite(bits),
    ensures
        magnitude == whole_magnitude(bits),
{
    let exponent: u32 = bits / 0x80_0000 % 0x100;
    let m: u32 = 0x80_0000 + bits % 0x80_0000;
    if exponent < 127 {
        0
    } else if exponent < 150 {
        shift_down(m, 150 - exponent) as u128
    } else {
        shift_up(m, exponent - 150)
    }
}

fn shift_down(m: u32, k: u32) -> (shifted: u32)
    requires
        k < 32,
    ensures
        shifted == shifted_down(m as int, k as int),
{
    let mut shifted: u32 = m;
    if k % 2 == 1 {
        shifted = shifted / 0x2;
    }
    if k / 2 % 2 == 1 {
        shifted = shifted / 0x4;
    }
    if k / 4 % 2 == 1 {
        shifted = shifted / 0x10;
    }
    if k / 8 % 2 == 1 {
        shifted = shifted / 0x100;
    }
    if k / 16 % 2 == 1 {
        shifted = shifted / 0x1_0000;
    }
    shifted
}

fn shift_up(m: u32, k: u32) -> (shifted: u128)
    requires
        m < 0x100_0000,
        k <= 104,
    ensures
        shifted == shifted_up(m as int, k as int),
{
    proof {
        lemma_shifted_up(m as int, k as int);
        lemma_exp2_bound(k as int);
        let p = exp2(k as int);
        assert(m * p <= u128::MAX) by (nonlinear_arith)
            requires
                0 <= m < 0x100_0000,
                0 < p <= 0x100_0000_0000_0000_0000_0000_0000,
        ;
    }
    let mut shifted: u128 = m as u128;
    if k % 2 == 1 {
        shifted = 0x2 * shifted;
    }
    if k / 2 % 2 == 1 {
        shifted = 0x4 * shifted;
    }
    if k / 4 % 2 == 1 {
        shifted = 0x10 * shifted;
    }
    if k / 8 % 2 == 1 {
        shifted = 0x100 * shifted;
    }
    if k / 16 % 2 == 1 {
        shifted = 0x1_0000 * shifted;
    }
    if k / 32 % 2 == 1 {
        shifted = 0x1_0000_0000 * shifted;
    }
    if k / 64 % 2 == 1 {
        shifted = 0x1_0000_0000_0000_0000 * shifted;
    }
    shifted
}

} // verus!
