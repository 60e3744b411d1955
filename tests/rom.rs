use microcode::control_word::ControlWord;
use microcode::instruction::{Keyword, Mnemonic, GPR};
use microcode::rom::{build_rom, RomError, STEPS_PER_OPCODE};

#[test]
fn rom_rows_are_padded_and_row_major() {
    let table = vec![Keyword::Hlt, Keyword::Sub(GPR::A, GPR::B)];
    let rom = build_rom(&table, STEPS_PER_OPCODE).unwrap();
    assert_eq!(rom.len(), 2 * 8 * 3);
    let mut expected = vec![0u8; 48];
    expected[2] = 0x08;
    let row = [0x68, 0, 0, 0x9E, 0, 0x20, 0x0C, 0x3D, 0x40, 0, 0, 0x04];
    expected[24..36].copy_from_slice(&row);
    assert_eq!(rom, expected);
}

#[test]
fn rom_rows_can_be_exactly_full() {
    let rom = build_rom(&vec![Keyword::Jmp(1)], 5).unwrap();
    assert_eq!(rom.len(), 15);
    assert_eq!(&rom[12..15], &[0, 0, 0x04]);
}

#[test]
fn empty_table_gives_empty_rom() {
    assert_eq!(build_rom(&vec![], STEPS_PER_OPCODE), Ok(vec![]));
    assert_eq!(build_rom(&vec![Keyword::Hlt, Keyword::Hlt], 0), Err(RomError::TooManySteps { opcode: 0, cycles: 1 }));
}

#[test]
fn rom_refuses_unimplemented_rows() {
    let table = vec![Keyword::Hlt, Keyword::Add(GPR::C, GPR::D), Keyword::Jz(4), Keyword::Nop];
    assert_eq!(
        build_rom(&table, STEPS_PER_OPCODE),
        Err(RomError::Unimplemented { opcode: 2, mnemonic: Mnemonic::Jz })
    );
}

#[test]
fn rom_refuses_rows_that_do_not_fit() {
    let table = vec![Keyword::Shl(GPR::A), Keyword::Jmp(0), Keyword::Nop];
    assert_eq!(build_rom(&table, 4), Err(RomError::TooManySteps { opcode: 1, cycles: 5 }));
}

#[test]
fn rom_refuses_more_rows_than_opcodes() {
    let table = vec![Keyword::Hlt; 257];
    assert_eq!(build_rom(&table, 1), Err(RomError::TooManyOpcodes));
    let table = vec![Keyword::Hlt; 256];
    assert_eq!(build_rom(&table, 1).unwrap().len(), 768);
}

#[test]
fn rom_cells_unpack_to_the_compiled_cycles() {
    let table = vec![Keyword::Jmp(3), Keyword::Xor(GPR::B, GPR::D), Keyword::Hlt];
    let rom = build_rom(&table, STEPS_PER_OPCODE).unwrap();
    for (o, k) in table.iter().enumerate() {
        let words = k.control_words().unwrap();
        for s in 0..STEPS_PER_OPCODE {
            let at = (o * STEPS_PER_OPCODE + s) * 3;
            let cell = ControlWord::unpack([rom[at], rom[at + 1], rom[at + 2]]);
            let expected = if s < words.len() { words[s] } else { ControlWord::empty() };
            assert_eq!(cell, expected);
        }
    }
}
