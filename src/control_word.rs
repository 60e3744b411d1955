//! The control word: the state of every control line for one clock cycle, and
//! its packing into three ROM bytes.
use vstd::prelude::*;

use crate::bus::{LOGIC_ZERO, REGISTER_A, SHIFT_ZERO};

verus! {

/// One clock cycle's control-line state.
#[derive(Debug, Clone, Copy, PartialEq, Eq, Structural)]
pub struct ControlWord {
    /// Component that latches the bus (4 bits).
    pub write_to: u8,
    /// Component that drives the bus (3 bits).
    pub read_from: u8,
    /// Register feeding the ALU's left input (2 bits).
    pub alu_left: u8,
    /// Register feeding the ALU's right input (2 bits).
    pub alu_right: u8,
    /// Shifter selector (2 bits).
    pub alu_shift: u8,
    /// Logic function selector (4 bits).
    pub alu_logic: u8,
    pub alu_subtract: bool,
    pub program_counter_enable: bool,
    pub bank_select_enable: bool,
    pub halt: bool,
    pub step_reset: bool,
}

/// The neutral word: every address on register A, every selector and flag off.
pub open spec fn neutral() -> ControlWord {
    ControlWord {
        write_to: REGISTER_A,
        read_from: REGISTER_A,
        alu_left: REGISTER_A,
        alu_right: REGISTER_A,
        alu_shift: SHIFT_ZERO,
        alu_logic: LOGIC_ZERO,
        alu_subtract: false,
        program_counter_enable: false,
        bank_select_enable: false,
        halt: false,
        step_reset: false,
    }
}

/// Byte 0: `write_to` in bits 7..4, `read_from` in bits 3..1, the high bit of
/// `alu_left` in bit 0.
pub open spec fn msb_of(w: ControlWord) -> u8 {
    (w.write_to << 4u8) | (w.read_from << 1u8) | (w.alu_left >> 1u8)
}

/// Byte 1: the low bit of `alu_left` in bit 7, `alu_right` in bits 6..5,
/// `alu_shift` in bits 4..3, the high bits of `alu_logic` in bits 2..0.
pub open spec fn middle_of(w: ControlWord) -> u8 {
    (w.alu_left << 7u8) | (w.alu_right << 5u8) | (w.alu_shift << 3u8) | (w.alu_logic >> 1u8)
}

pub open spec fn flag_bit(b: bool) -> u8 {
    if b { 1u8 } else { 0u8 }
}

/// Byte 2: the low bit of `alu_logic` in bit 7, then `alu_subtract`,
/// `program_counter_enable`, `bank_select_enable`, `halt` and `step_reset` in
/// bits 6..2; bits 1..0 are zero.
pub open spec fn lsb_of(w: ControlWord) -> u8 {
    (w.alu_logic << 7u8) | (flag_bit(w.alu_subtract) << 6u8) | (flag_bit(w.program_counter_enable) << 5u8)
        | (flag_bit(w.bank_select_enable) << 4u8) | (flag_bit(w.halt) << 3u8) | (flag_bit(
        w.step_reset,
    ) << 2u8)
}

/// The three ROM bytes of a word, most significant first.
pub open spec fn packed(w: ControlWord) -> Seq<u8> {
    seq![msb_of(w), middle_of(w), lsb_of(w)]
}

/// The word read back from three ROM bytes.
pub open spec fn unpacked(b0: u8, b1: u8, b2: u8) -> ControlWord {
    ControlWord {
        write_to: b0 >> 4u8,
        read_from: (b0 >> 1u8) & 7u8,
        alu_left: ((b0 & 1u8) << 1u8) | (b1 >> 7u8),
        alu_right: (b1 >> 5u8) & 3u8,
        alu_shift: (b1 >> 3u8) & 3u8,
        alu_logic: ((b1 & 7u8) << 1u8) | (b2 >> 7u8),
        alu_subtract: (b2 >> 6u8) & 1u8 == 1u8,
        program_counter_enable: (b2 >> 5u8) & 1u8 == 1u8,
        bank_select_enable: (b2 >> 4u8) & 1u8 == 1u8,
        halt: (b2 >> 3u8) & 1u8 == 1u8,
        step_reset: (b2 >> 2u8) & 1u8 == 1u8,
    }
}

impl ControlWord {
    /// Every field fits the bits that the ROM layout gives it.
    pub open spec fn fits_layout(&self) -> bool {
        &&& self.write_to < 16
        &&& self.read_from < 8
        &&& self.alu_left < 4
        &&& self.alu_right < 4
        &&& self.alu_shift < 4
        &&& self.alu_logic < 16
    }

    /// The neutral word, a safe no-op cycle.
    pub fn empty() -> (r: ControlWord)
        ensures
            r == neutral(),
            r.fits_layout(),
    {
        ControlWord {
            write_to: REGISTER_A,
            read_from: REGISTER_A,
            alu_left: REGISTER_A,
            alu_right: REGISTER_A,
            alu_shift: SHIFT_ZERO,
            alu_logic: LOGIC_ZERO,
            alu_subtract: false,
            program_counter_enable: false,
            bank_select_enable: false,
            halt: false,
            step_reset: false,
        }
    }

    /// Byte 0 of the packed word.
    pub fn most_significant_bits(&self) -> (r: u8)
        ensures
            r == msb_of(*self),
            self.fits_layout() ==> r == self.write_to * 16 + self.read_from * 2 + self.alu_left / 2,
    {
        let r = self.write_to << 4u8 | self.read_from << 1u8 | self.alu_left >> 1u8;
        proof {
            let (w, rd, l) = (self.write_to, self.read_from, self.alu_left);
            assert(w < 16 && rd < 8 && l < 4 ==> (w << 4u8) | (rd << 1u8) | (l >> 1u8) == w * 16
                + rd * 2 + l / 2) by (bit_vector);
        }
        r
    }

    /// Byte 1 of the packed word.
    pub fn middle_bits(&self) -> (r: u8)
        ensures
            r == middle_of(*self),
            self.fits_layout() ==> r == (self.alu_left % 2) * 128 + self.alu_right * 32
                + self.alu_shift * 8 + self.alu_logic / 2,
    {
        let r = self.alu_left << 7u8 | self.alu_right << 5u8 | self.alu_shift << 3u8
            | self.alu_logic >> 1u8;
        proof {
            let (l, rt, sh, lg) = (self.alu_left, self.alu_right, self.alu_shift, self.alu_logic);
            assert(l < 4 && rt < 4 && sh < 4 && lg < 16 ==> (l << 7u8) | (rt << 5u8) | (sh << 3u8)
                | (lg >> 1u8) == (l % 2) * 128 + rt * 32 + sh * 8 + lg / 2) by (bit_vector);
        }
        r
    }

    /// Byte 2 of the packed word.
    pub fn least_significant_bits(&self) -> (r: u8)
        ensures
            r == lsb_of(*self),
            r == (self.alu_logic % 2) * 128 + flag_bit(self.alu_subtract) * 64 + flag_bit(
                self.program_counter_enable,
            ) * 32 + flag_bit(self.bank_select_enable) * 16 + flag_bit(self.halt) * 8 + flag_bit(
                self.step_reset,
            ) * 4,
    {
        let r = self.alu_logic << 7u8 | (self.alu_subtract as u8) << 6u8
            | (self.program_counter_enable as u8) << 5u8 | (self.bank_select_enable as u8) << 4u8
            | (self.halt as u8) << 3u8 | (self.step_reset as u8) << 2u8;
        proof {
            let (lg, s, p, b, h, t) = (
                self.alu_logic,
                flag_bit(self.alu_subtract),
                flag_bit(self.program_counter_enable),
                flag_bit(self.bank_select_enable),
                flag_bit(self.halt),
                flag_bit(self.step_reset),
            );
            assert(s < 2 && p < 2 && b < 2 && h < 2 && t < 2 ==> (lg << 7u8) | (s << 6u8) | (p << 5u8)
                | (b << 4u8) | (h << 3u8) | (t << 2u8) == (lg % 2) * 128 + s * 64 + p * 32 + b * 16
                + h * 8 + t * 4) by (bit_vector);
        }
        r
    }

    /// The three ROM bytes of this word, most significant first.
    pub fn pack(&self) -> (r: [u8; 3])
        ensures
            r@ == packed(*self),
    {
        let r = [self.most_significant_bits(), self.middle_bits(), self.least_significant_bits()];
        assert(r@ =~= packed(*self));
        r
    }

    /// The word that three ROM bytes encode; the two unused low bits of the
    /// last byte are ignored.
    pub fn unpack(bytes: [u8; 3]) -> (r: ControlWord)
        ensures
            r == unpacked(bytes@[0], bytes@[1], bytes@[2]),
            r.fits_layout(),
    {
        let b0 = bytes[0];
        let b1 = bytes[1];
        let b2 = bytes[2];
        proof {
            lemma_unpacked_fits(b0, b1, b2);
        }
        ControlWord {
            write_to: b0 >> 4u8,
            read_from: (b0 >> 1u8) & 7u8,
            alu_left: (b0 & 1u8) << 1u8 | b1 >> 7u8,
            alu_right: (b1 >> 5u8) & 3u8,
            alu_shift: (b1 >> 3u8) & 3u8,
            alu_logic: (b1 & 7u8) << 1u8 | b2 >> 7u8,
            alu_subtract: (b2 >> 6u8) & 1u8 == 1u8,
            program_counter_enable: (b2 >> 5u8) & 1u8 == 1u8,
            bank_select_enable: (b2 >> 4u8) & 1u8 == 1u8,
            halt: (b2 >> 3u8) & 1u8 == 1u8,
            step_reset: (b2 >> 2u8) & 1u8 == 1u8,
        }
    }
}

impl Default for ControlWord {
    /// The neutral word.
    fn default() -> (r: ControlWord)
        ensures
            r == neutral(),
    {
        ControlWord::empty()
    }
}

proof fn lemma_unpacked_fits(b0: u8, b1: u8, b2: u8)
    ensures
        unpacked(b0, b1, b2).fits_layout(),
{
    assert(b0 >> 4u8 < 16 && (b0 >> 1u8) & 7u8 < 8 && ((b0 & 1u8) << 1u8) | (b1 >> 7u8) < 4) by (bit_vector);
    assert((b1 >> 5u8) & 3u8 < 4 && (b1 >> 3u8) & 3u8 < 4 && ((b1 & 7u8) << 1u8) | (b2 >> 7u8) < 16) by (bit_vector);
}

proof fn lemma_flag_round_trip(b: bool, byte: u8, k: u8)
    requires
        k < 8,
        (byte >> k) & 1u8 == flag_bit(b),
    ensures
        ((byte >> k) & 1u8 == 1u8) == b,
{
}

/// Unpacking the packed bytes of a word that fits the layout gives the word
/// back, field for field.
pub proof fn lemma_round_trip(w: ControlWord)
    requires
        w.fits_layout(),
    ensures
        unpacked(msb_of(w), middle_of(w), lsb_of(w)) == w,
{
    let (wt, rf, l, rt, sh, lg) = (w.write_to, w.read_from, w.alu_left, w.alu_right, w.alu_shift, w.alu_logic);
    let (s, p, b, h, t) = (
        flag_bit(w.alu_subtract),
        flag_bit(w.program_counter_enable),
        flag_bit(w.bank_select_enable),
        flag_bit(w.halt),
        flag_bit(w.step_reset),
    );
    let b0 = msb_of(w);
    let b1 = middle_of(w);
    let b2 = lsb_of(w);
    assert(b0 == (wt << 4u8) | (rf << 1u8) | (l >> 1u8));
    assert(b1 == (l << 7u8) | (rt << 5u8) | (sh << 3u8) | (lg >> 1u8));
    assert(b2 == (lg << 7u8) | (s << 6u8) | (p << 5u8) | (b << 4u8) | (h << 3u8) | (t << 2u8));
    assert(wt < 16 && rf < 8 && l < 4 && b0 == (wt << 4u8) | (rf << 1u8) | (l >> 1u8) ==> b0 >> 4u8
        == wt && (b0 >> 1u8) & 7u8 == rf) by (bit_vector);
    assert(l < 4 && rt < 4 && sh < 4 && lg < 16 && b0 == (wt << 4u8) | (rf << 1u8) | (l >> 1u8)
        && b1 == (l << 7u8) | (rt << 5u8) | (sh << 3u8) | (lg >> 1u8) ==> ((b0 & 1u8) << 1u8) | (b1
        >> 7u8) == l && (b1 >> 5u8) & 3u8 == rt && (b1 >> 3u8) & 3u8 == sh) by (bit_vector);
    assert(s < 2 && p < 2 && b < 2 && h < 2 && t < 2 && lg < 16 && b1 == (l << 7u8) | (rt << 5u8) | (
    sh << 3u8) | (lg >> 1u8) && b2 == (lg << 7u8) | (s << 6u8) | (p << 5u8) | (b << 4u8) | (h << 3u8)
        | (t << 2u8) ==> ((b1 & 7u8) << 1u8) | (b2 >> 7u8) == lg && (b2 >> 6u8) & 1u8 == s && (b2
        >> 5u8) & 1u8 == p && (b2 >> 4u8) & 1u8 == b && (b2 >> 3u8) & 1u8 == h && (b2 >> 2u8) & 1u8
        == t) by (bit_vector);
    lemma_flag_round_trip(w.alu_subtract, b2, 6);
    lemma_flag_round_trip(w.program_counter_enable, b2, 5);
    lemma_flag_round_trip(w.bank_select_enable, b2, 4);
    lemma_flag_round_trip(w.halt, b2, 3);
    lemma_flag_round_trip(w.step_reset, b2, 2);
}

/// Packing loses nothing: two different words that fit the layout, even ones
/// that differ in a single field, have different ROM bytes.
pub proof fn lemma_packing_injective(w1: ControlWord, w2: ControlWord)
    requires
        w1.fits_layout(),
        w2.fits_layout(),
        w1 != w2,
    ensures
        packed(w1) != packed(w2),
{
    lemma_round_trip(w1);
    lemma_round_trip(w2);
    if packed(w1) == packed(w2) {
        assert(msb_of(w1) == packed(w1)[0] && msb_of(w2) == packed(w2)[0]);
        assert(middle_of(w1) == packed(w1)[1] && middle_of(w2) == packed(w2)[1]);
        assert(lsb_of(w1) == packed(w1)[2] && lsb_of(w2) == packed(w2)[2]);
    }
}

/// The neutral word packs to three zero bytes.
pub proof fn lemma_neutral_packs_to_zero()
    ensures
        packed(neutral()) == seq![0u8, 0u8, 0u8],
{
    assert((0u8 << 4u8) | (0u8 << 1u8) | (0u8 >> 1u8) == 0u8) by (bit_vector);
    assert((0u8 << 7u8) | (0u8 << 5u8) | (0u8 << 3u8) | (0u8 >> 1u8) == 0u8) by (bit_vector);
    assert((0u8 << 7u8) | (0u8 << 6u8) | (0u8 << 5u8) | (0u8 << 4u8) | (0u8 << 3u8) | (0u8 << 2u8)
        == 0u8) by (bit_vector);
    assert(packed(neutral()) =~= seq![0u8, 0u8, 0u8]);
}

/// Packing the word read from three bytes gives the bytes back when the two
/// unused low bits of the last byte are zero.
pub proof fn lemma_unpack_then_pack(b0: u8, b1: u8, b2: u8)
    requires
        b2 & 3u8 == 0,
    ensures
        packed(unpacked(b0, b1, b2)) == seq![b0, b1, b2],
{
    let w = unpacked(b0, b1, b2);
    assert(((b0 >> 4u8) << 4u8) | (((b0 >> 1u8) & 7u8) << 1u8) | ((((b0 & 1u8) << 1u8) | (b1 >> 7u8))
        >> 1u8) == b0) by (bit_vector);
    assert(((((b0 & 1u8) << 1u8) | (b1 >> 7u8)) << 7u8) | (((b1 >> 5u8) & 3u8) << 5u8) | (((b1 >> 3u8)
        & 3u8) << 3u8) | ((((b1 & 7u8) << 1u8) | (b2 >> 7u8)) >> 1u8) == b1) by (bit_vector);
    let (s, p, b, h, t) = (
        flag_bit(w.alu_subtract),
        flag_bit(w.program_counter_enable),
        flag_bit(w.bank_select_enable),
        flag_bit(w.halt),
        flag_bit(w.step_reset),
    );
    assert(s == (b2 >> 6u8) & 1u8 && p == (b2 >> 5u8) & 1u8 && b == (b2 >> 4u8) & 1u8 && h == (b2 >> 3u8) & 1u8
        && t == (b2 >> 2u8) & 1u8) by {
        assert(forall|k: u8| k < 8 ==> ((b2 >> k) & 1u8 == 1u8 || (b2 >> k) & 1u8 == 0u8)) by (bit_vector);
    }
    assert(b2 & 3u8 == 0 ==> ((((b1 & 7u8) << 1u8) | (b2 >> 7u8)) << 7u8) | (((b2 >> 6u8) & 1u8) << 6u8)
        | (((b2 >> 5u8) & 1u8) << 5u8) | (((b2 >> 4u8) & 1u8) << 4u8) | (((b2 >> 3u8) & 1u8) << 3u8)
        | (((b2 >> 2u8) & 1u8) << 2u8) == b2) by (bit_vector);
    assert(packed(w) =~= seq![b0, b1, b2]);
}

} // verus!
