//! A CHIP-8 virtual machine: opcode decoding, the interpreter engine and its
//! quirks profiles, with every operation specified against a mathematical
//! model of the machine.

pub mod op_code_variable_util;
pub mod op_code;
pub mod instruction;
pub mod quirks;
pub mod font;
pub mod machine;
mod random;
mod display;
pub mod cpu;
pub mod laws;
pub mod raster;
