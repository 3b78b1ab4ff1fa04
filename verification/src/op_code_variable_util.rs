//! Field extraction from a raw 16-bit opcode word.
//!
//! An opcode is read as four hexadecimal digits `d3 d2 d1 d0`. The
//! specification functions below name the fields in plain arithmetic; the
//! executable functions compute them with masks and shifts.

use vstd::prelude::*;

verus! {

/// The hexadecimal digit of `op_code` at `position`, counted from the least
/// significant digit (position 0) to the most significant one (position 3).
pub open spec fn digit_of(op_code: u16, position: nat) -> u8 {
    if position == 0 {
        (op_code % 16) as u8
    } else if position == 1 {
        ((op_code / 16) % 16) as u8
    } else if position == 2 {
        ((op_code / 256) % 16) as u8
    } else {
        ((op_code / 4096) % 16) as u8
    }
}

/// The 12-bit address field `nnn`: the three low digits.
pub open spec fn address_of(op_code: u16) -> u16 {
    op_code % 4096
}

/// The 8-bit immediate field `kk`: the two low digits.
pub open spec fn byte_of(op_code: u16) -> u16 {
    op_code % 256
}

/// Get the last 12 bits from a 16 bit operation code.
pub fn get_nnn(op_code: u16) -> (nnn: u16)
    ensures
        nnn == address_of(op_code),
        nnn < 4096,
{
    assert(op_code & 0x0FFF == op_code % 4096) by (bit_vector);
    op_code & 0x0FFF
}

/// Get the last 4 bits from a 16 bit operation code.
pub fn get_nibble(op_code: u16) -> (nibble: u16)
    ensures
        nibble == digit_of(op_code, 0),
        nibble < 16,
{
    assert(op_code & 0x000F == op_code % 16) by (bit_vector);
    op_code & 0x000F
}

/// Get the last 4 bits from the first 8 bits of an operation code.
pub fn get_x(op_code: u16) -> (x: u16)
    ensures
        x == digit_of(op_code, 2),
        x < 16,
{
    assert((op_code & 0x0F00) >> 8 == (op_code / 256) % 16) by (bit_vector);
    (op_code & 0x0F00) >> 8
}

/// Get the first 4 bits from the last 8 bits of an operation code.
pub fn get_y(op_code: u16) -> (y: u16)
    ensures
        y == digit_of(op_code, 1),
        y < 16,
{
    assert((op_code & 0x00F0) >> 4 == (op_code / 16) % 16) by (bit_vector);
    (op_code & 0x00F0) >> 4
}

/// Get the last 8 bits from a 16 bit operation code.
pub fn get_byte(op_code: u16) -> (byte: u16)
    ensures
        byte == byte_of(op_code),
        byte < 256,
{
    assert(op_code & 0x00FF == op_code % 256) by (bit_vector);
    op_code & 0x00FF
}

/// Split an opcode into its four digits, most significant first.
pub fn split_op_code(op_code: u16) -> (digits: (u8, u8, u8, u8))
    ensures
        digits.0 == digit_of(op_code, 3),
        digits.1 == digit_of(op_code, 2),
        digits.2 == digit_of(op_code, 1),
        digits.3 == digit_of(op_code, 0),
        digits.0 < 16 && digits.1 < 16 && digits.2 < 16 && digits.3 < 16,
        op_code == 4096 * digits.0 + 256 * digits.1 + 16 * digits.2 + digits.3,
{
    assert((op_code & 0xF000) >> 12 == (op_code / 4096) % 16) by (bit_vector);
    assert((op_code & 0x0F00) >> 8 == (op_code / 256) % 16) by (bit_vector);
    assert((op_code & 0x00F0) >> 4 == (op_code / 16) % 16) by (bit_vector);
    assert(op_code & 0x000F == op_code % 16) by (bit_vector);
    (
        ((op_code & 0xF000) >> 12) as u8,
        ((op_code & 0x0F00) >> 8) as u8,
        ((op_code & 0x00F0) >> 4) as u8,
        (op_code & 0x000F) as u8,
    )
}

} // verus!
