//! Byte arithmetic of the instruction set: the two additions, the rotation,
//! and the nibble fields of an instruction byte.

use vstd::prelude::*;

verus! {

/// The value of a byte read as an 8-bit two's-complement number.
pub open spec fn signed8(a: u8) -> int {
    if a < 128 {
        a as int
    } else {
        a as int - 256
    }
}

/// Sum of two bytes with silent wraparound.
pub open spec fn wrapping_sum(a: u8, b: u8) -> u8 {
    ((a as int + b as int) % 256) as u8
}

/// Sum of two bytes, held at 255 where it would not fit.
pub open spec fn clamped_sum(a: u8, b: u8) -> u8 {
    if a as int + b as int > 255 {
        255u8
    } else {
        (a as int + b as int) as u8
    }
}

/// The byte `x` rotated right by `n` places, the distance taken modulo 8.
pub open spec fn rotated_right(x: u8, n: u8) -> u8 {
    let k: u8 = n % 8;
    if k == 0 {
        x
    } else {
        (x >> k) | (x << ((8 - k) as u8))
    }
}

/// Bit `i` of the byte `x`, as 0 or 1.
pub open spec fn bit_of(x: u8, i: u8) -> u8 {
    (x >> i) & 1
}

/// Upper four bits of a byte.
pub open spec fn high_nibble(b: u8) -> u8 {
    b / 16
}

/// Lower four bits of a byte.
pub open spec fn low_nibble(b: u8) -> u8 {
    b % 16
}

/// The upper four bits of a byte, as a number below 16.
pub fn upper(b: u8) -> (r: u8)
    ensures
        r == high_nibble(b),
        r < 16,
{
    assert(b >> 4 == b / 16) by (bit_vector);
    b >> 4
}

/// The lower four bits of a byte, as a number below 16.
pub fn lower(b: u8) -> (r: u8)
    ensures
        r == low_nibble(b),
        r < 16,
{
    assert(b & 0x0F == b % 16) by (bit_vector);
    b & 0x0F
}

/// Two's-complement addition of two bytes.
pub fn add_wrapping(a: u8, b: u8) -> (r: u8)
    ensures
        r == wrapping_sum(a, b),
{
    a.wrapping_add(b)
}

/// Saturating addition of two bytes.
pub fn add_clamped(a: u8, b: u8) -> (r: u8)
    ensures
        r == clamped_sum(a, b),
{
    a.saturating_add(b)
}

/// Rotates `x` right by `n` places within its eight bits.
pub fn rotate_right(x: u8, n: u8) -> (r: u8)
    ensures
        r == rotated_right(x, n),
{
    let k: u8 = n % 8;
    if k == 0 {
        x
    } else {
        (x >> k) | (x << (8 - k))
    }
}

/// Adding two bytes with wraparound is adding the signed numbers they
/// encode and reading the low eight bits of the sum as an unsigned byte.
pub proof fn lemma_wrapping_sum_is_signed_sum(a: u8, b: u8)
    ensures
        wrapping_sum(a, b) as int == (signed8(a) + signed8(b)) % 256,
        signed8(wrapping_sum(a, b)) == signed8(a) + signed8(b)
            || signed8(wrapping_sum(a, b)) == signed8(a) + signed8(b) - 256
            || signed8(wrapping_sum(a, b)) == signed8(a) + signed8(b) + 256,
{
}

/// The clamped sum is the smaller of 255 and the true sum.
pub proof fn lemma_clamped_sum_is_min(a: u8, b: u8)
    ensures
        clamped_sum(a, b) as int == vstd::math::min(255, a as int + b as int),
{
}

/// A rotation moves the bit at place `(i + n) mod 8` to place `i`.
pub proof fn lemma_rotated_right_bits(x: u8, n: u8, i: u8)
    requires
        i < 8,
    ensures
        bit_of(rotated_right(x, n), i) == bit_of(x, ((i + n % 8) % 8) as u8),
{
    let k: u8 = n % 8;
    let j: u8 = ((i + k) % 8) as u8;
    if k == 0 {
    } else {
        let l: u8 = (8 - k) as u8;
        assert(((((x >> k) | (x << l)) >> i) & 1) == ((x >> j) & 1)) by (bit_vector)
            requires
                0 < k < 8,
                l == 8 - k,
                i < 8,
                j == (i + k) % 8,
        ;
    }
}

/// Only the distance modulo 8 matters to a rotation.
pub proof fn lemma_rotation_distance_mod_8(x: u8, n: u8)
    ensures
        rotated_right(x, n) == rotated_right(x, n % 8),
        rotated_right(x, 8) == x,
        rotated_right(x, 0) == x,
{
}

} // verus!
