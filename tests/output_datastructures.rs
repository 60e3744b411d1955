use microcode::bus::{
    BANK_SELECT, LOGIC_ZERO, MEMORY, ONES, OR, REGISTER_A, REGISTER_B, REGISTER_C, REGISTER_D,
    SHIFT_ZERO, UNCHANGED,
};
use microcode::control_word::ControlWord;

fn standard_control_word() -> ControlWord {
    ControlWord {
        write_to: REGISTER_A,
        read_from: REGISTER_A,
        alu_left: REGISTER_A,
        alu_right: REGISTER_A,
        alu_shift: SHIFT_ZERO,
        alu_logic: LOGIC_ZERO,
        alu_subtract: false,
        program_counter_enable: false,
        bank_select_enable: false,
        halt: false,
        step_reset: false,
    }
}

#[test]
fn msb_conversion_uses_write_to() {
    let control_word = ControlWord {
        write_to: MEMORY,
        ..standard_control_word()
    };

    assert_eq!(0b01110000, control_word.most_significant_bits());
}

#[test]
fn msb_conversion_uses_read_from() {
    let control_word = ControlWord {
        read_from: REGISTER_D,
        ..standard_control_word()
    };

    assert_eq!(0b00000110, control_word.most_significant_bits());
}

#[test]
fn msb_conversion_uses_msb_from_alu_left() {
    let control_word = ControlWord {
        alu_left: REGISTER_C,
        ..standard_control_word()
    };

    assert_eq!(0b00000001, control_word.most_significant_bits());
}

#[test]
fn msb_conversion_does_not_use_other_fields() {
    let control_word = ControlWord {
        alu_left: REGISTER_B,
        alu_right: REGISTER_D,
        alu_shift: UNCHANGED,
        alu_logic: ONES,
        alu_subtract: true,
        program_counter_enable: true,
        bank_select_enable: true,
        halt: true,
        step_reset: true,
        ..standard_control_word()
    };

    assert_eq!(0b00000000, control_word.most_significant_bits());
}

#[test]
fn middle_bits_conversion_uses_lsb_from_alu_left() {
    let control_word = ControlWord {
        alu_left: REGISTER_B,
        ..standard_control_word()
    };

    assert_eq!(0b10000000, control_word.middle_bits());
}

#[test]
fn middle_bits_conversion_uses_alu_right() {
    let control_word = ControlWord {
        alu_right: REGISTER_D,
        ..standard_control_word()
    };

    assert_eq!(0b01100000, control_word.middle_bits());
}

#[test]
fn middle_bits_conversion_uses_alu_shift() {
    let control_word = ControlWord {
        alu_shift: UNCHANGED,
        ..standard_control_word()
    };

    assert_eq!(0b00011000, control_word.middle_bits());
}

#[test]
fn middle_bits_conversion_uses_alu_logic() {
    let control_word = ControlWord {
        alu_logic: ONES,
        ..standard_control_word()
    };

    assert_eq!(0b00000111, control_word.middle_bits());
}

#[test]
fn middle_bits_conversion_uses_no_other_fields() {
    let control_word = ControlWord {
        write_to: BANK_SELECT,
        read_from: BANK_SELECT,
        alu_subtract: true,
        program_counter_enable: true,
        bank_select_enable: true,
        halt: true,
        step_reset: true,
        ..standard_control_word()
    };

    assert_eq!(0b00000000, control_word.middle_bits());
}

#[test]
fn lsb_conversion_uses_alu_logic() {
    let control_word = ControlWord {
        alu_logic: ONES,
        ..standard_control_word()
    };

    assert_eq!(0b10000000, control_word.least_significant_bits());
}

#[test]
fn lsb_conversion_uses_alu_subtract() {
    let control_word = ControlWord {
        alu_subtract: true,
        ..standard_control_word()
    };

    assert_eq!(0b01000000, control_word.least_significant_bits());
}

#[test]
fn lsb_conversion_uses_program_counter_enable() {
    let control_word = ControlWord {
        program_counter_enable: true,
        ..standard_control_word()
    };

    assert_eq!(0b00100000, control_word.least_significant_bits());
}

#[test]
fn lsb_conversion_uses_bank_select_enable() {
    let control_word = ControlWord {
        bank_select_enable: true,
        ..standard_control_word()
    };

    assert_eq!(0b00010000, control_word.least_significant_bits());
}

#[test]
fn lsb_conversion_uses_halt() {
    let control_word = ControlWord {
        halt: true,
        ..standard_control_word()
    };

    assert_eq!(0b00001000, control_word.least_significant_bits());
}

#[test]
fn lsb_conversion_uses_step_reset() {
    let control_word = ControlWord {
        step_reset: true,
        ..standard_control_word()
    };

    assert_eq!(0b00000100, control_word.least_significant_bits());
}

#[test]
fn lsb_conversion_does_not_use_other_flags() {
    let control_word = ControlWord {
        write_to: REGISTER_D,
        read_from: REGISTER_D,
        alu_left: REGISTER_B,
        alu_right: REGISTER_D,
        alu_shift: UNCHANGED,
        alu_logic: OR,
        ..standard_control_word()
    };

    assert_eq!(0b00000000, control_word.least_significant_bits());
}
