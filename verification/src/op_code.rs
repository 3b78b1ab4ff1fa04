//! The opcode word as a value of its own.

use vstd::prelude::*;
use crate::op_code_variable_util;
use crate::op_code_variable_util::{address_of, byte_of, digit_of};

verus! {

/// One 16-bit instruction word as fetched from program memory.
#[derive(Clone, Copy, Debug)]
pub struct OpCode {
    op_code: u16,
}

impl View for OpCode {
    type V = u16;

    closed spec fn view(&self) -> u16 {
        self.op_code
    }
}

impl OpCode {
    pub fn new(op_code: u16) -> (code: Self)
        ensures
            code@ == op_code,
    {
        OpCode { op_code }
    }

    /// Get the raw op_code
    pub fn get_instruction(&self) -> (word: u16)
        ensures
            word == self@,
    {
        self.op_code
    }

    /// Get the last 12 bits from a 16 bit operation code.
    pub fn get_nnn(&self) -> (nnn: u16)
        ensures
            nnn == address_of(self@),
            nnn < 4096,
    {
        op_code_variable_util::get_nnn(self.op_code)
    }

    /// Get the last 4 bits from a 16 bit operation code.
    pub fn get_nibble(&self) -> (nibble: u16)
        ensures
            nibble == digit_of(self@, 0),
            nibble < 16,
    {
        op_code_variable_util::get_nibble(self.op_code)
    }

    /// Get the last 4 bits from the first 8 bits of an operation code.
    pub fn get_x(&self) -> (x: u16)
        ensures
            x == digit_of(self@, 2),
            x < 16,
    {
        op_code_variable_util::get_x(self.op_code)
    }

    /// Get the first 4 bits from the last 8 bits of an operation code.
    pub fn get_y(&self) -> (y: u16)
        ensures
            y == digit_of(self@, 1),
            y < 16,
    {
        op_code_variable_util::get_y(self.op_code)
    }

    /// Get the last 8 bits from a 16 bit operation code.
    pub fn get_byte(&self) -> (byte: u16)
        ensures
            byte == byte_of(self@),
            byte < 256,
    {
        op_code_variable_util::get_byte(self.op_code)
    }

    /// Split an opcode into its four digits, most significant first.
    pub fn split_op_code(&self) -> (digits: (u8, u8, u8, u8))
        ensures
            digits.0 == digit_of(self@, 3),
            digits.1 == digit_of(self@, 2),
            digits.2 == digit_of(self@, 1),
            digits.3 == digit_of(self@, 0),
            digits.0 < 16 && digits.1 < 16 && digits.2 < 16 && digits.3 < 16,
            self@ == 4096 * digits.0 + 256 * digits.1 + 16 * digits.2 + digits.3,
    {
        op_code_variable_util::split_op_code(self.op_code)
    }
}

} // verus!
