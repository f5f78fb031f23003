//! Samples and levels as 32-bit words in the IEEE 754 single-precision
//! encoding: one sign bit, eight exponent bits, twenty-three fraction bits.
//!
//! Moving samples needs no more than their words. Keeping a level between
//! zero and one is an order comparison, and the order of two encoded values
//! can be read off their words, so that rule is decided here as well.

use vstd::prelude::*;

verus! {

/// The word of positive zero: a silent sample, and the lowest level.
pub const SILENCE: u32 = 0;

/// The word of one: the highest level.
pub const UNITY: u32 = 0x3f80_0000;

/// The sign bit of a word.
pub const SIGN_BIT: u32 = 0x8000_0000;

/// The largest magnitude that is a number: infinity. Above it a word is not a
/// number.
pub const INFINITY_MAGNITUDE: u32 = 0x7f80_0000;

/// The word without its sign bit.
pub open spec fn magnitude(word: u32) -> u32 {
    word & 0x7fff_ffffu32
}

/// Whether the sign bit is set.
pub open spec fn is_negative(word: u32) -> bool {
    word & 0x8000_0000u32 != 0
}

/// Whether the word encodes no number.
pub open spec fn is_nan(word: u32) -> bool {
    magnitude(word) > INFINITY_MAGNITUDE
}

/// An integer that orders the words that are numbers as their values are
/// ordered. Both zeros have rank zero.
pub open spec fn rank(word: u32) -> int {
    if is_negative(word) {
        -(magnitude(word) as int)
    } else {
        magnitude(word) as int
    }
}

/// `a < b` on the encoded values. It is false whenever either is not a number.
pub open spec fn below(a: u32, b: u32) -> bool {
    !is_nan(a) && !is_nan(b) && rank(a) < rank(b)
}

/// A level limited to the range from zero to one: what is below zero becomes
/// zero, what is above one becomes one, and what lies between is kept as it
/// is. A word that is no number has no place in the range and becomes zero,
/// so that a level is a number whatever was asked for.
pub open spec fn clamp_unit(level: u32) -> u32 {
    if is_nan(level) || below(level, SILENCE) {
        SILENCE
    } else if below(UNITY, level) {
        UNITY
    } else {
        level
    }
}

/// Whether a level lies in the range from zero to one: it is a number, not
/// less than zero and not more than one.
pub open spec fn in_unit_range(level: u32) -> bool {
    !is_nan(level) && 0 <= rank(level) <= rank(UNITY)
}

/// How the sign bit and the magnitude of a word relate to the word as a
/// number.
pub proof fn lemma_word_parts(word: u32)
    ensures
        word & 0x8000_0000u32 == 0 ==> word & 0x7fff_ffffu32 == word,
        word & 0x8000_0000u32 != 0 ==> word & 0x7fff_ffffu32 == word - 0x8000_0000u32,
        word & 0x8000_0000u32 != 0 <==> word >= 0x8000_0000u32,
        word & 0x7fff_ffffu32 <= 0x7fff_ffffu32,
{
    assert(word & 0x8000_0000u32 == 0 ==> word & 0x7fff_ffffu32 == word) by (bit_vector);
    assert(word & 0x8000_0000u32 != 0 ==> word & 0x7fff_ffffu32 == word - 0x8000_0000u32)
        by (bit_vector);
    assert(word & 0x8000_0000u32 != 0 <==> word >= 0x8000_0000u32) by (bit_vector);
    assert(word & 0x7fff_ffffu32 <= 0x7fff_ffffu32) by (bit_vector);
}

/// Limits a level to the range from zero to one.
pub fn clamp_level(level: u32) -> (r: u32)
    ensures
        r == clamp_unit(level),
        in_unit_range(r),
        !is_nan(r),
        0 <= rank(r) <= rank(UNITY),
{
    proof {
        lemma_word_parts(level);
        lemma_word_parts(SILENCE);
        lemma_word_parts(UNITY);
    }
    let mag: u32 = level & 0x7fff_ffffu32;
    if mag > INFINITY_MAGNITUDE {
        SILENCE
    } else if level & SIGN_BIT != 0 {
        if mag == 0 {
            level
        } else {
            SILENCE
        }
    } else if level > UNITY {
        UNITY
    } else {
        level
    }
}

/// Limiting any word, a number or not, gives a number from zero to one.
/// Limiting it again changes nothing, and a level in the range is kept as it
/// is.
pub proof fn lemma_clamp_unit_range(level: u32)
    ensures
        !is_nan(clamp_unit(level)),
        0 <= rank(clamp_unit(level)) <= rank(UNITY),
        in_unit_range(clamp_unit(level)),
        clamp_unit(clamp_unit(level)) == clamp_unit(level),
        in_unit_range(level) <==> clamp_unit(level) == level,
{
    lemma_word_parts(level);
    lemma_word_parts(SILENCE);
    lemma_word_parts(UNITY);
}

} // verus!
