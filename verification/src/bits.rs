//! The bit operations of the interpreter in terms of division and remainder.

use vstd::prelude::*;

verus! {

/// Masking and shifting an opcode picks out its nibbles.
pub proof fn lemma_nibbles(opcode: u16)
    ensures
        (opcode & 0xF000) >> 12 == opcode / 0x1000,
        (opcode & 0x0F00) >> 8 == (opcode / 0x100) % 16,
        (opcode & 0x00F0) >> 4 == (opcode / 0x10) % 16,
        opcode & 0x000F == opcode % 16,
{
    assert((opcode & 0xF000) >> 12 == opcode / 0x1000 && (opcode & 0x0F00) >> 8 == (opcode
        / 0x100) % 16 && (opcode & 0x00F0) >> 4 == (opcode / 0x10) % 16 && opcode & 0x000F
        == opcode % 16) by (bit_vector);
}

/// Masking an opcode with `0xFF` leaves its low byte.
pub proof fn lemma_low_byte(opcode: u16)
    ensures
        opcode & 0xFF == opcode % 0x100,
{
    assert(opcode & 0xFF == opcode % 0x100) by (bit_vector);
}

/// Masking an opcode with `0xFFF` leaves its low twelve bits.
pub proof fn lemma_address(opcode: u16)
    ensures
        opcode & 0xFFF == opcode % 0x1000,
{
    assert(opcode & 0xFFF == opcode % 0x1000) by (bit_vector);
}

/// Two bytes joined high byte first.
pub proof fn lemma_big_endian(high: u8, low: u8)
    ensures
        ((high as u16) << 8) | (low as u16) == high * 0x100 + low,
{
    assert(((high as u16) << 8) | (low as u16) == high * 0x100 + low) by (bit_vector);
}

/// The high nibble of a byte.
pub proof fn lemma_high_nibble(byte: u8)
    ensures
        byte >> 4 == byte / 16,
{
    assert(byte >> 4 == byte / 16) by (bit_vector);
}

/// A right shift by one halves, and the low bit is the remainder.
pub proof fn lemma_shift_right(byte: u8)
    ensures
        byte >> 1 == byte / 2,
        byte & 1 == byte % 2,
{
    assert(byte >> 1 == byte / 2 && byte & 1 == byte % 2) by (bit_vector);
}

/// A left shift by one doubles, dropping the high bit, which is the quotient
/// by 128.
pub proof fn lemma_shift_left(byte: u8)
    ensures
        byte << 1 == (byte * 2) % 0x100,
        (byte >> 7) & 1 == byte / 0x80,
{
    assert(byte << 1 == (byte * 2) % 0x100 && (byte >> 7) & 1 == byte / 0x80) by (bit_vector);
}

} // verus!
