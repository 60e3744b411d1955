//! The microcode ROM image: one row per opcode, one packed control word per
//! step, three bytes per word, row-major.
use vstd::prelude::*;

use crate::control_word::{lemma_round_trip, neutral, packed, unpacked, ControlWord};
use crate::instruction::{Keyword, Mnemonic};
use crate::microcode::{microcode, CompileError};
use crate::opcode::OPCODE_SPACE;

verus! {

/// Steps per opcode of the control unit's step counter.
pub const STEPS_PER_OPCODE: usize = 8;

/// Why no ROM image was built.
#[derive(Debug, Clone, Copy, PartialEq, Eq, Structural)]
pub enum RomError {
    /// More rows than the opcode index can address.
    TooManyOpcodes,
    /// The instruction of row `opcode` has no microcode.
    Unimplemented { opcode: usize, mnemonic: Mnemonic },
    /// The instruction of row `opcode` takes `cycles` cycles, more than a row
    /// holds.
    TooManySteps { opcode: usize, cycles: usize },
}

/// The cycles of an instruction; empty where it has no microcode.
pub open spec fn cycles_of(k: Keyword) -> Seq<ControlWord> {
    match microcode(k) {
        Some(s) => s,
        None => seq![],
    }
}

/// The instruction has microcode, and it fits a row of `steps` cycles.
pub open spec fn row_fits(k: Keyword, steps: nat) -> bool {
    microcode(k) matches Some(s) && s.len() <= steps
}

/// Step `s` of a row: the instruction's cycle, or the neutral word after its
/// last cycle.
pub open spec fn cell(cycles: Seq<ControlWord>, s: int) -> ControlWord {
    if s < cycles.len() {
        cycles[s]
    } else {
        neutral()
    }
}

/// The bytes of the first `steps` cells of a row.
pub open spec fn row_image(cycles: Seq<ControlWord>, steps: nat) -> Seq<u8>
    decreases steps,
{
    if steps == 0 {
        seq![]
    } else {
        row_image(cycles, (steps - 1) as nat) + packed(cell(cycles, steps - 1))
    }
}

/// The bytes of all rows, each `steps` cells long, in row order.
pub open spec fn rom_image(rows: Seq<Seq<ControlWord>>, steps: nat) -> Seq<u8>
    decreases rows.len(),
{
    if rows.len() == 0 {
        seq![]
    } else {
        rom_image(rows.drop_last(), steps) + row_image(rows.last(), steps)
    }
}

/// The cycle sequences of the instructions of a table, in table order.
pub open spec fn table_rows(table: Seq<Keyword>) -> Seq<Seq<ControlWord>> {
    table.map_values(|k: Keyword| cycles_of(k))
}

/// Builds the ROM image whose row `o` holds the microcode of `table[o]`,
/// padded with neutral words to `steps` cycles. Fails on the first row whose
/// instruction has no microcode or does not fit.
pub fn build_rom(table: &Vec<Keyword>, steps: usize) -> (r: Result<Vec<u8>, RomError>)
    ensures
        table@.len() > OPCODE_SPACE ==> r == Err::<Vec<u8>, RomError>(RomError::TooManyOpcodes),
        table@.len() <= OPCODE_SPACE ==> match r {
            Ok(rom) => {
                &&& forall|o: int| 0 <= o < table@.len() ==> row_fits(#[trigger] table@[o], steps as nat)
                &&& rom@ == rom_image(table_rows(table@), steps as nat)
                &&& rom@.len() == table@.len() * steps * 3
            },
            Err(RomError::Unimplemented { opcode, mnemonic }) => {
                &&& opcode < table@.len()
                &&& microcode(table@[opcode as int]) is None
                &&& mnemonic == table@[opcode as int].spec_mnemonic()
                &&& forall|o: int| 0 <= o < opcode ==> row_fits(#[trigger] table@[o], steps as nat)
            },
            Err(RomError::TooManySteps { opcode, cycles }) => {
                &&& opcode < table@.len()
                &&& microcode(table@[opcode as int]) == Some(cycles_of(table@[opcode as int]))
                &&& cycles == cycles_of(table@[opcode as int]).len()
                &&& cycles > steps
                &&& forall|o: int| 0 <= o < opcode ==> row_fits(#[trigger] table@[o], steps as nat)
            },
            Err(RomError::TooManyOpcodes) => false,
        },
{
    if table.len() > OPCODE_SPACE {
        return Err(RomError::TooManyOpcodes);
    }
    let ghost rows = table_rows(table@);
    let mut rom: Vec<u8> = Vec::new();
    let mut o: usize = 0;
    while o < table.len()
        invariant
            o <= table@.len() <= OPCODE_SPACE,
            rows == table_rows(table@),
            rom@ == rom_image(rows.take(o as int), steps as nat),
            forall|j: int| 0 <= j < o ==> row_fits(#[trigger] table@[j], steps as nat),
        decreases table.len() - o,
    {
        let cycles = match table[o].control_words() {
            Ok(v) => v,
            Err(CompileError::Unimplemented(m)) => {
                return Err(RomError::Unimplemented { opcode: o, mnemonic: m });
            },
        };
        if cycles.len() > steps {
            return Err(RomError::TooManySteps { opcode: o, cycles: cycles.len() });
        }
        let ghost before = rom@;
        let mut s: usize = 0;
        while s < steps
            invariant
                s <= steps,
                rom@ == before + row_image(cycles@, s as nat),
            decreases steps - s,
        {
            let w = if s < cycles.len() {
                cycles[s]
            } else {
                ControlWord::empty()
            };
            let bytes = w.pack();
            rom.push(bytes[0]);
            rom.push(bytes[1]);
            rom.push(bytes[2]);
            assert(rom@ =~= before + row_image(cycles@, (s + 1) as nat));
            s += 1;
        }
        assert(rows.take(o + 1).drop_last() =~= rows.take(o as int));
        assert(rows[o as int] == cycles@);
        o += 1;
    }
    assert(rows.take(o as int) =~= rows);
    proof {
        lemma_rom_len(rows, steps as nat);
    }
    Ok(rom)
}

proof fn lemma_row_len(cycles: Seq<ControlWord>, steps: nat)
    ensures
        row_image(cycles, steps).len() == steps * 3,
    decreases steps,
{
    if steps > 0 {
        lemma_row_len(cycles, (steps - 1) as nat);
    }
}

proof fn lemma_rom_len(rows: Seq<Seq<ControlWord>>, steps: nat)
    ensures
        rom_image(rows, steps).len() == rows.len() * steps * 3,
    decreases rows.len(),
{
    if rows.len() > 0 {
        lemma_rom_len(rows.drop_last(), steps);
        lemma_row_len(rows.last(), steps);
        assert(rows.len() * steps * 3 == (rows.len() - 1) * steps * 3 + steps * 3) by (nonlinear_arith);
    }
}

proof fn lemma_row_index(cycles: Seq<ControlWord>, steps: nat, s: int, b: int)
    requires
        0 <= s < steps,
        0 <= b < 3,
    ensures
        row_image(cycles, steps)[s * 3 + b] == packed(cell(cycles, s))[b],
    decreases steps,
{
    lemma_row_len(cycles, (steps - 1) as nat);
    if s < steps - 1 {
        lemma_row_index(cycles, (steps - 1) as nat, s, b);
    }
}

/// The image is row-major: byte `b` of step `s` of row `o` stands at
/// `(o * steps + s) * 3 + b`, and it is that byte of the packed cell.
pub proof fn lemma_rom_layout(rows: Seq<Seq<ControlWord>>, steps: nat, o: int, s: int, b: int)
    requires
        0 <= o < rows.len(),
        0 <= s < steps,
        0 <= b < 3,
    ensures
        rom_image(rows, steps).len() == rows.len() * steps * 3,
        (o * steps + s) * 3 + b < rom_image(rows, steps).len(),
        rom_image(rows, steps)[(o * steps + s) * 3 + b] == packed(cell(rows[o], s))[b],
    decreases rows.len(),
{
    let n = rows.len() as int;
    lemma_rom_len(rows, steps);
    lemma_rom_len(rows.drop_last(), steps);
    lemma_row_len(rows.last(), steps);
    let k = (o * steps + s) * 3 + b;
    if o == n - 1 {
        assert(k == (n - 1) * steps * 3 + (s * 3 + b)) by (nonlinear_arith)
            requires
                k == (o * steps + s) * 3 + b,
                o == n - 1,
        ;
        assert(s * 3 + b < steps * 3);
        lemma_row_index(rows.last(), steps, s, b);
    } else {
        assert(k < (n - 1) * steps * 3) by (nonlinear_arith)
            requires
                k == (o * steps + s) * 3 + b,
                0 <= o < n - 1,
                0 <= s < steps,
                0 <= b < 3,
        ;
        lemma_rom_layout(rows.drop_last(), steps, o, s, b);
    }
    assert(k < n * steps * 3) by (nonlinear_arith)
        requires
            k == (o * steps + s) * 3 + b,
            0 <= o < n,
            0 <= s < steps,
            0 <= b < 3,
    ;
}

/// The image reads back: where every cycle of a row fits the layout, the
/// three bytes of its step `s` unpack to that step's cycle, or to the neutral
/// word after the row's last cycle.
pub proof fn lemma_rom_reads_back(rows: Seq<Seq<ControlWord>>, steps: nat, o: int, s: int)
    requires
        0 <= o < rows.len(),
        0 <= s < steps,
        forall|i: int| 0 <= i < rows[o].len() ==> (#[trigger] rows[o][i]).fits_layout(),
    ensures
        ({
            let image = rom_image(rows, steps);
            let k = (o * steps + s) * 3;
            unpacked(image[k], image[k + 1], image[k + 2]) == cell(rows[o], s)
        }),
{
    lemma_rom_layout(rows, steps, o, s, 0);
    lemma_rom_layout(rows, steps, o, s, 1);
    lemma_rom_layout(rows, steps, o, s, 2);
    lemma_round_trip(cell(rows[o], s));
}

} // verus!
