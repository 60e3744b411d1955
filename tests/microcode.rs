use microcode::bus::{INSTRUCTION, MEMORY, MEMORY_ADDRESS, PROGRAM_COUNTER};
use microcode::control_word::ControlWord;
use microcode::instruction::Keyword;
use microcode::microcode::{ctrl_vec, GenMicrocode};

fn fetch_cycle() -> Vec<ControlWord> {
    vec![
        ControlWord {
            read_from: PROGRAM_COUNTER,
            write_to: MEMORY_ADDRESS,
            ..ControlWord::empty()
        },
        ControlWord {
            read_from: MEMORY,
            write_to: INSTRUCTION,
            bank_select_enable: false,
            program_counter_enable: true,
            ..ControlWord::empty()
        },
        ControlWord {
            step_reset: true,
            ..ControlWord::empty()
        },
    ]
}

#[test]
fn ctrl_vec_inserts_fetch_cycle() {
    let x = ctrl_vec(vec![]);
    assert_eq!(fetch_cycle(), x);
}

#[test]
fn ctrl_vec_inserts_given_values_before_step_reset() {
    let last_elem = ControlWord::empty();
    let x = ctrl_vec(vec![last_elem]);
    assert_eq!(4, x.len());
    assert_eq!(ControlWord::empty(), x[2]);
}

#[test]
fn test() {
    Keyword::test();
}
