use microcode::bus::{
    INSTRUCTION, LOGIC_B, MEMORY, NAND, ONES, OUTPUT, PROGRAM_COUNTER, REGISTER_B, REGISTER_D,
    SHIFT_RIGHT, UNCHANGED,
};
use microcode::control_word::ControlWord;

fn variants() -> Vec<ControlWord> {
    let e = ControlWord::empty();
    vec![
        ControlWord { write_to: INSTRUCTION, ..e },
        ControlWord { write_to: 15, ..e },
        ControlWord { read_from: MEMORY, ..e },
        ControlWord { read_from: 1, ..e },
        ControlWord { alu_left: REGISTER_D, ..e },
        ControlWord { alu_left: 1, ..e },
        ControlWord { alu_left: 2, ..e },
        ControlWord { alu_right: REGISTER_B, ..e },
        ControlWord { alu_shift: SHIFT_RIGHT, ..e },
        ControlWord { alu_logic: 1, ..e },
        ControlWord { alu_logic: NAND, ..e },
        ControlWord { alu_subtract: true, ..e },
        ControlWord { program_counter_enable: true, ..e },
        ControlWord { bank_select_enable: true, ..e },
        ControlWord { halt: true, ..e },
        ControlWord { step_reset: true, ..e },
    ]
}

#[test]
fn empty_packs_to_zero_bytes() {
    assert_eq!(ControlWord::empty().pack(), [0, 0, 0]);
}

#[test]
fn memory_write_packs_to_golden_bytes() {
    let w = ControlWord { write_to: MEMORY, ..ControlWord::empty() };
    assert_eq!(w.pack(), [0b0111_0000, 0, 0]);
}

#[test]
fn full_word_packs_to_known_bytes() {
    let w = ControlWord {
        write_to: OUTPUT,
        read_from: PROGRAM_COUNTER,
        alu_left: 3,
        alu_right: 2,
        alu_shift: UNCHANGED,
        alu_logic: ONES,
        alu_subtract: true,
        program_counter_enable: false,
        bank_select_enable: true,
        halt: false,
        step_reset: true,
    };
    assert_eq!(w.pack(), [0b1000_1001, 0b1101_1111, 0b1101_0100]);
}

#[test]
fn words_differing_in_one_field_pack_differently() {
    let empty = ControlWord::empty().pack();
    let all = variants();
    for (i, a) in all.iter().enumerate() {
        assert_ne!(a.pack(), empty);
        for b in &all[i + 1..] {
            assert_ne!(a.pack(), b.pack());
        }
    }
}

#[test]
fn pack_then_unpack_round_trips() {
    let mut all = variants();
    all.push(ControlWord::empty());
    all.push(ControlWord {
        write_to: 9,
        read_from: 7,
        alu_left: 3,
        alu_right: 3,
        alu_shift: 3,
        alu_logic: LOGIC_B,
        alu_subtract: true,
        program_counter_enable: true,
        bank_select_enable: true,
        halt: true,
        step_reset: true,
    });
    for w in all {
        assert_eq!(ControlWord::unpack(w.pack()), w);
    }
}

#[test]
fn unpack_then_pack_keeps_bytes() {
    for bytes in [[0xFF, 0xFF, 0xFC], [0x12, 0x34, 0x54], [0, 0x80, 0x80]] {
        assert_eq!(ControlWord::unpack(bytes).pack(), bytes);
    }
    let w = ControlWord::unpack([0, 0, 0b0000_0011]);
    assert_eq!(w, ControlWord::empty());
}
