//! Microcode toolchain for a small 8-bit, microcode-driven CPU: the control
//! word of one clock cycle and its bit-exact packing, the instruction set, the
//! compiler from an instruction to its sequence of control words, opcode
//! assignment, the builder of the microcode ROM image, and recognisers for the
//! numbers and labels of the assembly source.

pub mod bus;
pub mod control_word;
pub mod instruction;
pub mod microcode;
pub mod opcode;
pub mod parse;
pub mod rom;
