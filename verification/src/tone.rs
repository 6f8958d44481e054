//! From a weight to the tone that stands for it.
//!
//! The weight is cut down to a whole number, and each whole number is one rung
//! of the overtone series of the base frequency: a listener hears distinct
//! steps, not a glide.

use crate::binary32::{
    floor_magnitude,
    integer_part,
    is_finite,
    is_nan,
    is_negative,
    lemma_whole_part_is_integer_part,
    lemma_whole_part_monotonic,
    whole_part,
};
use vstd::prelude::*;

verus! {

/// The fundamental of the series, in hertz.
pub const BASE_FREQUENCY: i128 = 110;

/// The most rungs, counted up or down from no tone at all, whose frequency
/// `i128` still holds.
const TOP_RUNG: u128 = 1_546_738_031_458_811_197_560_793_670_144_400_961;

/// The frequency of a weight by the formula, with no limit: the base
/// frequency times one more than the weight's whole part.
pub open spec fn exact_frequency(weight: u32) -> int {
    BASE_FREQUENCY * (whole_part(weight) + 1)
}

/// The frequency, in hertz, that stands for a weight given by its binary32
/// bit pattern. For a finite weight it is the frequency by the formula, held
/// to the range of `i128` where that range ends. It is this library's own
/// choice to count a NaN as the weight zero, and an infinity as a weight
/// above every finite one, which puts it at the end of the range.
pub open spec fn frequency_of(weight: u32) -> int {
    if is_nan(weight) {
        BASE_FREQUENCY as int
    } else if exact_frequency(weight) > i128::MAX {
        i128::MAX as int
    } else if exact_frequency(weight) < i128::MIN {
        i128::MIN as int
    } else {
        exact_frequency(weight)
    }
}

/// Maps a weight to a frequency of the overtone series. Total: every bit
/// pattern has a frequency. The only limit is the end of `i128`, which no
/// weight below 2^120 in absolute value reaches. What a NaN and the
/// infinities get is this library's own choice: a NaN sounds as the weight
/// zero does, and an infinity sits at the end of the range on its side.
pub fn weight_to_frequency(weight: u32) -> (hertz: i128)
    ensures
        hertz == frequency_of(weight),
{
    let negative: bool = weight >= 0x8000_0000;
    let exponent: u32 = weight / 0x80_0000 % 0x100;
    let fraction: u32 = weight % 0x80_0000;
    if exponent == 255 {
        if fraction != 0 {
            BASE_FREQUENCY
        } else if negative {
            i128::MIN
        } else {
            i128::MAX
        }
    } else {
        let magnitude: u128 = floor_magnitude(weight);
        if negative {
            if magnitude == 0 {
                BASE_FREQUENCY
            } else if magnitude - 1 > TOP_RUNG {
                i128::MIN
            } else {
                -(BASE_FREQUENCY * ((magnitude - 1) as i128))
            }
        } else {
            if magnitude >= TOP_RUNG {
                i128::MAX
            } else {
                BASE_FREQUENCY * ((magnitude + 1) as i128)
            }
        }
    }
}

/// For every finite weight the frequency is the base frequency times one more
/// than the integer part of the number that the pattern stands for, held to
/// the range of `i128`; and for every weight below 2^120 in absolute value it
/// is that product itself.
pub proof fn lemma_frequency_formula(weight: u32)
    requires
        is_finite(weight),
    ensures
        exact_frequency(weight) == BASE_FREQUENCY * (integer_part(weight) + 1),
        i128::MIN <= exact_frequency(weight) <= i128::MAX ==> frequency_of(weight)
            == BASE_FREQUENCY * (integer_part(weight) + 1),
        exact_frequency(weight) > i128::MAX ==> frequency_of(weight) == i128::MAX,
        exact_frequency(weight) < i128::MIN ==> frequency_of(weight) == i128::MIN,
        crate::binary32::biased_exponent(weight) < 247 ==> frequency_of(weight) == BASE_FREQUENCY
            * (integer_part(weight) + 1),
{
    lemma_whole_part_is_integer_part(weight);
}

/// A weight whose whole part is not smaller has a frequency that is not
/// lower.
pub proof fn lemma_frequency_monotonic(lighter: u32, heavier: u32)
    requires
        !is_nan(lighter),
        !is_nan(heavier),
        whole_part(lighter) <= whole_part(heavier),
    ensures
        frequency_of(lighter) <= frequency_of(heavier),
{
}

/// Among weights that are not negative, a heavier one never sounds lower,
/// and none sounds below the base frequency. The weights are compared by
/// their patterns, which orders them as numbers.
pub proof fn lemma_frequency_monotonic_in_weight(lighter: u32, heavier: u32)
    requires
        !is_negative(lighter),
        !is_negative(heavier),
        !is_nan(lighter),
        !is_nan(heavier),
        lighter <= heavier,
    ensures
        BASE_FREQUENCY <= frequency_of(lighter) <= frequency_of(heavier),
{
    lemma_whole_part_monotonic(lighter, heavier);
}

/// Weights with the same whole part sound the same.
pub proof fn lemma_frequency_by_whole_part(a: u32, b: u32)
    requires
        !is_nan(a),
        !is_nan(b),
        whole_part(a) == whole_part(b),
    ensures
        frequency_of(a) == frequency_of(b),
{
}

/// Short of the ends of the range, every frequency is a whole multiple of
/// the base, and one rung up is one base frequency higher.
pub proof fn lemma_frequency_is_overtone(weight: u32)
    requires
        !is_nan(weight),
        i128::MIN <= exact_frequency(weight) <= i128::MAX,
    ensures
        frequency_of(weight) % (BASE_FREQUENCY as int) == 0,
        frequency_of(weight) / (BASE_FREQUENCY as int) == whole_part(weight) + 1,
{
}

} // verus!
