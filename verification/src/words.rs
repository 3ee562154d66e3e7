//! A 32-bit measurement pattern as two 16-bit register words.
//!
//! Every measurement travels as the IEEE-754 binary32 bit pattern of its
//! value. A register holds sixteen bits, so one measurement fills two
//! registers.

use vstd::prelude::*;

verus! {

/// The pattern whose upper half is `high` and whose lower half is `low`.
pub open spec fn join_words(high: u16, low: u16) -> u32 {
    (high as int * 0x1_0000 + low as int) as u32
}

/// The upper sixteen bits of `bits`.
pub open spec fn high_word(bits: u32) -> u16 {
    (bits as int / 0x1_0000) as u16
}

/// The lower sixteen bits of `bits`.
pub open spec fn low_word(bits: u32) -> u16 {
    (bits as int % 0x1_0000) as u16
}

/// Splits a pattern into its `(high, low)` words.
pub fn split_words(bits: u32) -> (words: (u16, u16))
    ensures
        words.0 == high_word(bits),
        words.1 == low_word(bits),
{
    let high: u16 = (bits >> 16) as u16;
    let low: u16 = (bits & 0xFFFF) as u16;
    assert(bits >> 16 == bits / 0x1_0000) by (bit_vector);
    assert(bits & 0xFFFF == bits % 0x1_0000) by (bit_vector);
    (high, low)
}

/// Joins two words into one pattern, `high` in the upper half.
pub fn merge_words(high: u16, low: u16) -> (bits: u32)
    ensures
        bits == join_words(high, low),
{
    let bits: u32 = ((high as u32) << 16) | (low as u32);
    assert(((high as u32) << 16) | (low as u32) == (high as u32) * 0x1_0000 + (low as u32))
        by (bit_vector);
    bits
}

/// Splitting a pattern and joining the two words gives the pattern back.
pub proof fn lemma_split_then_join(bits: u32)
    ensures
        join_words(high_word(bits), low_word(bits)) == bits,
{
}

/// Joining two words and splitting the pattern gives the two words back.
pub proof fn lemma_join_then_split(high: u16, low: u16)
    ensures
        high_word(join_words(high, low)) == high,
        low_word(join_words(high, low)) == low,
{
}

} // verus!
