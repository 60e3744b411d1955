//! The bus address space and the ALU selector codes.
//!
//! `read_from` and `write_to` of a control word name the component that drives
//! the shared bus and the one that latches it. The read side fits 3 bits, the
//! write side 4 bits. `ACCUMULATOR` and `MEMORY_ADDRESS` share the number 6:
//! the accumulator only ever drives the bus and the memory address register
//! only ever latches it, so the two never meet in the same field.
use vstd::prelude::*;

verus! {

pub const REGISTER_A: u8 = 0;
pub const REGISTER_B: u8 = 1;
pub const REGISTER_C: u8 = 2;
pub const REGISTER_D: u8 = 3;
pub const PROGRAM_COUNTER: u8 = 4;
pub const BANK_SELECT: u8 = 5;
/// Drives the bus with the ALU result (read side).
pub const ACCUMULATOR: u8 = 6;
/// Latches the bus into the memory address register (write side).
pub const MEMORY_ADDRESS: u8 = 6;
pub const MEMORY: u8 = 7;
/// Output latch; write side only.
pub const OUTPUT: u8 = 8;
/// Instruction register; write side only.
pub const INSTRUCTION: u8 = 9;

/// ALU shifter: zero the shifter output.
pub const SHIFT_ZERO: u8 = 0;
pub const SHIFT_LEFT: u8 = 1;
pub const SHIFT_RIGHT: u8 = 2;
/// ALU shifter: pass the adder output through unchanged.
pub const UNCHANGED: u8 = 3;

// The code of an ALU logic function is its truth table: bit `2 * a + b` of the
// code is the function's value on the inputs `a` and `b`.
pub const LOGIC_ZERO: u8 = 0;
pub const NOR: u8 = 1;
pub const B_AND_NOT_A: u8 = 2;
pub const NOT_A: u8 = 3;
pub const A_AND_NOT_B: u8 = 4;
pub const NOT_B: u8 = 5;
pub const XOR: u8 = 6;
pub const NAND: u8 = 7;
pub const AND: u8 = 8;
pub const XNOR: u8 = 9;
pub const LOGIC_B: u8 = 10;
pub const B_OR_NOT_A: u8 = 11;
pub const LOGIC_A: u8 = 12;
pub const A_OR_NOT_B: u8 = 13;
pub const OR: u8 = 14;
pub const ONES: u8 = 15;

/// The value of the logic function with code `code` on the bits `a` and `b`.
pub open spec fn logic_value(code: u8, a: bool, b: bool) -> bool {
    let bit: u8 = if a {
        if b { 3u8 } else { 2u8 }
    } else {
        if b { 1u8 } else { 0u8 }
    };
    (code >> bit) & 1u8 == 1u8
}

/// Each named logic code computes the function its name says.
pub proof fn lemma_logic_codes(a: bool, b: bool)
    by (bit_vector)
    ensures
        logic_value(LOGIC_ZERO, a, b) == false,
        logic_value(ONES, a, b) == true,
        logic_value(AND, a, b) == (a && b),
        logic_value(OR, a, b) == (a || b),
        logic_value(XOR, a, b) == (a != b),
        logic_value(NAND, a, b) == !(a && b),
        logic_value(NOR, a, b) == !(a || b),
        logic_value(XNOR, a, b) == (a == b),
        logic_value(LOGIC_A, a, b) == a,
        logic_value(LOGIC_B, a, b) == b,
        logic_value(NOT_A, a, b) == !a,
        logic_value(NOT_B, a, b) == !b,
        logic_value(A_AND_NOT_B, a, b) == (a && !b),
        logic_value(B_AND_NOT_A, a, b) == (b && !a),
        logic_value(A_OR_NOT_B, a, b) == (a || !b),
        logic_value(B_OR_NOT_A, a, b) == (b || !a),
{
}

} // verus!
