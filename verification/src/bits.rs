//! Byte and word arithmetic shared by the registers, the memory map and the CPU.

use vstd::prelude::*;
use vstd::std_specs::bits::{u8_trailing_zeros, axiom_u8_trailing_zeros};

verus! {

/// The 16-bit word whose high byte is `hi` and low byte is `lo`.
pub open spec fn word(hi: u8, lo: u8) -> u16 {
    (hi as int * 256 + lo as int) as u16
}

/// The high byte of a 16-bit word.
pub open spec fn high_byte(nn: u16) -> u8 {
    (nn / 256) as u8
}

/// The low byte of a 16-bit word.
pub open spec fn low_byte(nn: u16) -> u8 {
    (nn % 256) as u8
}

/// `1` for `true`, `0` for `false`.
pub open spec fn bit_value(b: bool) -> u8 {
    if b {
        1
    } else {
        0
    }
}

/// Adding `d` to `x` modulo 2^16.
pub open spec fn add_signed_u16(x: u16, d: int) -> u16 {
    ((x as int + d + 0x10000) % 0x10000) as u16
}

pub proof fn lemma_word_parts(hi: u8, lo: u8)
    ensures
        (hi as u16) << 8u16 | lo as u16 == word(hi, lo),
        word(hi, lo) == hi as int * 256 + lo as int,
{
    assert((hi as u16) << 8u16 | lo as u16 == hi as u16 * 256 + lo as u16) by (bit_vector);
}

pub proof fn lemma_split_word(nn: u16)
    ensures
        (nn >> 8u16) as u8 == high_byte(nn),
        (nn & 0xFFu16) as u8 == low_byte(nn),
        word(high_byte(nn), low_byte(nn)) == nn,
{
    assert((nn >> 8u16) as u8 == (nn / 256) as u8) by (bit_vector);
    assert((nn & 0xFFu16) as u8 == (nn % 256) as u8) by (bit_vector);
}

/// A word is its bytes put back together, and a word's bytes are the ones it
/// was made of.
pub proof fn lemma_word_roundtrip(nn: u16, hi: u8, lo: u8)
    ensures
        word(high_byte(nn), low_byte(nn)) == nn,
        high_byte(word(hi, lo)) == hi,
        low_byte(word(hi, lo)) == lo,
{
}

pub proof fn lemma_low_nibble(x: u8)
    ensures
        x & 0xFu8 == x % 16,
{
    assert(x & 0xFu8 == x % 16) by (bit_vector);
}

/// `v` shifted left by one with `carry_in` entering bit 0.
pub open spec fn shl_in(v: u8, carry_in: bool) -> u8 {
    ((v as int * 2) % 256 + bit_value(carry_in) as int) as u8
}

/// `v` shifted right by one with `carry_in` entering bit 7.
pub open spec fn shr_in(v: u8, carry_in: bool) -> u8 {
    (bit_value(carry_in) as int * 128 + v as int / 2) as u8
}

pub proof fn lemma_low_nibble_u16(x: u16)
    ensures
        x & 0xFu16 == x % 16,
        x & 0xFFFu16 == x % 4096,
{
    assert(x & 0xFu16 == x % 16) by (bit_vector);
    assert(x & 0xFFFu16 == x % 4096) by (bit_vector);
}

pub proof fn lemma_shl_in(v: u8, c: u8)
    requires
        c <= 1,
    ensures
        (v << 1u8) | c == (v as int * 2) % 256 + c,
        v >> 7u8 == v / 128,
        v >> 7u8 <= 1,
        (v >> 7u8) & 1u8 == v / 128,
        v << 1u8 == (v as int * 2) % 256,
{
    assert((v << 1u8) | c == (v * 2) % 256 + c) by (bit_vector)
        requires
            c <= 1,
    ;
    assert(v >> 7u8 == v / 128) by (bit_vector);
    assert((v >> 7u8) & 1u8 == v / 128) by (bit_vector);
    assert(v << 1u8 == (v * 2) % 256) by (bit_vector);
}

pub proof fn lemma_shr_in(v: u8, c: u8)
    requires
        c <= 1,
    ensures
        (c << 7u8) | v >> 1u8 == c * 128 + v / 2,
        v & 1u8 == v % 2,
        v >> 1u8 == v / 2,
        v & 0x80u8 == (v / 128) * 128,
        v >> 1u8 | v & 0x80u8 == v / 2 + (v / 128) * 128,
{
    assert((c << 7u8) | v >> 1u8 == c * 128 + v / 2) by (bit_vector)
        requires
            c <= 1,
    ;
    assert(v & 1u8 == v % 2) by (bit_vector);
    assert(v >> 1u8 == v / 2) by (bit_vector);
    assert(v & 0x80u8 == (v / 128) * 128) by (bit_vector);
    assert(v >> 1u8 | v & 0x80u8 == v / 2 + (v / 128) * 128) by (bit_vector);
}

/// A byte has at least four trailing zero bits exactly when its low nibble
/// is zero.
pub proof fn lemma_trailing_zeros_nibble(v: u8)
    ensures
        (u8_trailing_zeros(v) >= 4) == (v % 16 == 0),
{
    axiom_u8_trailing_zeros(v);
    let tz = u8_trailing_zeros(v);
    if tz >= 4 {
        assert((v >> 0u8) & 1u8 == 0u8);
        assert((v >> 1u8) & 1u8 == 0u8);
        assert((v >> 2u8) & 1u8 == 0u8);
        assert((v >> 3u8) & 1u8 == 0u8);
        assert(v % 16 == 0) by (bit_vector)
            requires
                (v >> 0u8) & 1u8 == 0u8,
                (v >> 1u8) & 1u8 == 0u8,
                (v >> 2u8) & 1u8 == 0u8,
                (v >> 3u8) & 1u8 == 0u8,
        ;
    } else {
        let t = tz as u8;
        assert((v >> t) & 1u8 == 1u8);
        assert(v % 16 != 0) by (bit_vector)
            requires
                t < 4,
                (v >> t) & 1u8 == 1u8,
        ;
    }
}

/// The bits of a signed byte read as an unsigned byte.
pub proof fn lemma_unsigned_byte(d: i8)
    ensures
        d < 0 ==> d as u8 == d as int + 256,
        d >= 0 ==> d as u8 == d as int,
{
    assert(d < 0 ==> d as u8 == d as int + 256) by (bit_vector);
    assert(d >= 0 ==> d as u8 == d as int) by (bit_vector);
}

pub proof fn lemma_low_byte_cast(x: u16)
    ensures
        x as u8 == x % 256,
{
    assert(x as u8 == x % 256) by (bit_vector);
}

/// A byte cast to a signed byte is its two's complement value.
pub proof fn lemma_signed_byte(b: u8)
    ensures
        b >= 128 ==> b as i8 == b - 256,
        b < 128 ==> b as i8 == b,
{
    assert(b >= 128 ==> b as i8 == b - 256) by (bit_vector);
    assert(b < 128 ==> b as i8 == b) by (bit_vector);
}

} // verus!
