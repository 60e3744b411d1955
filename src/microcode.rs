//! The microcode compiler: from an instruction to the control words of its
//! clock cycles, the shared fetch prologue first and a step reset last.
use vstd::prelude::*;

use crate::bus::{
    ACCUMULATOR, AND, INSTRUCTION, LOGIC_B, LOGIC_ZERO, MEMORY, MEMORY_ADDRESS, OR,
    PROGRAM_COUNTER, SHIFT_LEFT, SHIFT_RIGHT, SHIFT_ZERO, UNCHANGED, XOR,
};
use crate::control_word::{neutral, ControlWord};
use crate::instruction::{declaration_order, Keyword, Mnemonic};
use crate::opcode::{assign_opcode, lemma_declared_opcode, lemma_opcode_unique};

verus! {

/// Why an instruction has no microcode.
#[derive(Debug, Clone, Copy, PartialEq, Eq, Structural)]
pub enum CompileError {
    /// The mnemonic has no execute cycles yet: conditional jumps and `nop`
    /// wait on a status-flag input that the bus does not have.
    Unimplemented(Mnemonic),
}

/// The two fetch cycles that start every instruction but `hlt`: the program
/// counter goes to the memory address register, then memory goes to the
/// instruction register while the program counter advances.
pub open spec fn fetch_prologue() -> Seq<ControlWord> {
    seq![
        ControlWord { read_from: PROGRAM_COUNTER, write_to: MEMORY_ADDRESS, ..neutral() },
        ControlWord {
            read_from: MEMORY,
            write_to: INSTRUCTION,
            bank_select_enable: false,
            program_counter_enable: true,
            ..neutral()
        },
    ]
}

/// The last cycle of every instruction but `hlt`: back to the fetch prologue.
pub open spec fn step_reset_word() -> ControlWord {
    ControlWord { step_reset: true, ..neutral() }
}

/// The only cycle of `hlt`.
pub open spec fn halt_word() -> ControlWord {
    ControlWord { halt: true, ..neutral() }
}

/// Execute cycles between the fetch prologue and the step reset.
pub open spec fn framed(execute: Seq<ControlWord>) -> Seq<ControlWord> {
    fetch_prologue() + execute + seq![step_reset_word()]
}

/// An ALU cycle whose result, driven by the accumulator, is latched into
/// `dest`.
pub open spec fn alu_cycle(left: u8, right: u8, logic: u8, shift: u8, subtract: bool, dest: u8) -> ControlWord {
    ControlWord {
        read_from: ACCUMULATOR,
        write_to: dest,
        alu_left: left,
        alu_right: right,
        alu_logic: logic,
        alu_shift: shift,
        alu_subtract: subtract,
        ..neutral()
    }
}

/// The execute cycles of an instruction; `None` for the mnemonics that have
/// none yet.
pub open spec fn execute_cycles(k: Keyword) -> Option<Seq<ControlWord>> {
    match k {
        Keyword::Mov(from, to) => Some(
            seq![ControlWord { read_from: from.spec_address(), write_to: to.spec_address(), ..neutral() }],
        ),
        Keyword::Sub(a, b) => Some(
            seq![alu_cycle(a.spec_address(), b.spec_address(), LOGIC_B, UNCHANGED, true, a.spec_address())],
        ),
        Keyword::Add(a, b) => Some(
            seq![alu_cycle(a.spec_address(), b.spec_address(), LOGIC_B, UNCHANGED, false, a.spec_address())],
        ),
        Keyword::And(a, b) => Some(
            seq![alu_cycle(a.spec_address(), b.spec_address(), AND, SHIFT_ZERO, false, a.spec_address())],
        ),
        Keyword::Or(a, b) => Some(
            seq![alu_cycle(a.spec_address(), b.spec_address(), OR, SHIFT_ZERO, false, a.spec_address())],
        ),
        Keyword::Xor(a, b) => Some(
            seq![alu_cycle(a.spec_address(), b.spec_address(), XOR, SHIFT_ZERO, false, a.spec_address())],
        ),
        // `cmp` only sets the ALU's flags: register A drives and latches the
        // bus, which leaves every register as it was.
        Keyword::Cmp(a, b) => Some(
            seq![
                ControlWord {
                    alu_left: a.spec_address(),
                    alu_right: b.spec_address(),
                    alu_subtract: true,
                    alu_shift: UNCHANGED,
                    alu_logic: LOGIC_B,
                    ..neutral()
                },
            ],
        ),
        Keyword::Shl(a) => Some(
            seq![
                ControlWord {
                    read_from: ACCUMULATOR,
                    write_to: a.spec_address(),
                    alu_left: a.spec_address(),
                    alu_shift: SHIFT_LEFT,
                    alu_logic: LOGIC_ZERO,
                    ..neutral()
                },
            ],
        ),
        Keyword::Shr(a) => Some(
            seq![
                ControlWord {
                    read_from: ACCUMULATOR,
                    write_to: a.spec_address(),
                    alu_left: a.spec_address(),
                    alu_shift: SHIFT_RIGHT,
                    alu_logic: LOGIC_ZERO,
                    ..neutral()
                },
            ],
        ),
        Keyword::Jmp(_) => Some(
            seq![
                ControlWord { read_from: PROGRAM_COUNTER, write_to: MEMORY_ADDRESS, ..neutral() },
                ControlWord { read_from: MEMORY, write_to: PROGRAM_COUNTER, ..neutral() },
            ],
        ),
        Keyword::Hlt => Some(seq![]),
        Keyword::Jc(_) | Keyword::Jz(_) | Keyword::Nop => None,
    }
}

/// The whole cycle sequence of an instruction: `hlt` is the single halt cycle,
/// every other instruction with execute cycles is framed by the fetch
/// prologue and the step reset.
pub open spec fn microcode(k: Keyword) -> Option<Seq<ControlWord>> {
    if k is Hlt {
        Some(seq![halt_word()])
    } else {
        match execute_cycles(k) {
            Some(e) => Some(framed(e)),
            None => None,
        }
    }
}

/// Frames execute cycles: the fetch prologue, then `execute`, then the step
/// reset.
pub fn ctrl_vec(execute: Vec<ControlWord>) -> (r: Vec<ControlWord>)
    ensures
        r@ == framed(execute@),
{
    let mut r = vec![
        ControlWord { read_from: PROGRAM_COUNTER, write_to: MEMORY_ADDRESS, ..ControlWord::empty() },
        ControlWord {
            read_from: MEMORY,
            write_to: INSTRUCTION,
            bank_select_enable: false,
            program_counter_enable: true,
            ..ControlWord::empty()
        },
    ];
    let mut i: usize = 0;
    while i < execute.len()
        invariant
            i <= execute.len(),
            r@ == fetch_prologue() + execute@.take(i as int),
        decreases execute.len() - i,
    {
        r.push(execute[i]);
        assert(execute@.take(i as int + 1) =~= execute@.take(i as int).push(execute@[i as int]));
        i += 1;
    }
    assert(execute@.take(i as int) =~= execute@);
    r.push(ControlWord { step_reset: true, ..ControlWord::empty() });
    r
}

fn alu_word(left: u8, right: u8, logic: u8, shift: u8, subtract: bool, dest: u8) -> (r: ControlWord)
    ensures
        r == alu_cycle(left, right, logic, shift, subtract, dest),
{
    ControlWord {
        read_from: ACCUMULATOR,
        write_to: dest,
        alu_left: left,
        alu_right: right,
        alu_logic: logic,
        alu_shift: shift,
        alu_subtract: subtract,
        ..ControlWord::empty()
    }
}

impl Keyword {
    /// The control words of every clock cycle of this instruction, or the
    /// mnemonic whose execute cycles are not defined.
    pub fn control_words(&self) -> (r: Result<Vec<ControlWord>, CompileError>)
        ensures
            match microcode(*self) {
                Some(s) => r matches Ok(v) && v@ == s,
                None => r == Err::<Vec<ControlWord>, _>(CompileError::Unimplemented(self.spec_mnemonic())),
            },
    {
        match self {
            Keyword::Mov(from, to) => Ok(
                ctrl_vec(
                    vec![
                        ControlWord {
                            read_from: from.address(),
                            write_to: to.address(),
                            ..ControlWord::empty()
                        },
                    ],
                ),
            ),
            Keyword::Sub(a, b) => Ok(
                ctrl_vec(vec![alu_word(a.address(), b.address(), LOGIC_B, UNCHANGED, true, a.address())]),
            ),
            Keyword::Add(a, b) => Ok(
                ctrl_vec(vec![alu_word(a.address(), b.address(), LOGIC_B, UNCHANGED, false, a.address())]),
            ),
            Keyword::And(a, b) => Ok(
                ctrl_vec(vec![alu_word(a.address(), b.address(), AND, SHIFT_ZERO, false, a.address())]),
            ),
            Keyword::Or(a, b) => Ok(
                ctrl_vec(vec![alu_word(a.address(), b.address(), OR, SHIFT_ZERO, false, a.address())]),
            ),
            Keyword::Xor(a, b) => Ok(
                ctrl_vec(vec![alu_word(a.address(), b.address(), XOR, SHIFT_ZERO, false, a.address())]),
            ),
            Keyword::Cmp(a, b) => Ok(
                ctrl_vec(
                    vec![
                        ControlWord {
                            alu_left: a.address(),
                            alu_right: b.address(),
                            alu_subtract: true,
                            alu_shift: UNCHANGED,
                            alu_logic: LOGIC_B,
                            ..ControlWord::empty()
                        },
                    ],
                ),
            ),
            Keyword::Shl(a) => Ok(
                ctrl_vec(
                    vec![
                        ControlWord {
                            read_from: ACCUMULATOR,
                            write_to: a.address(),
                            alu_left: a.address(),
                            alu_shift: SHIFT_LEFT,
                            alu_logic: LOGIC_ZERO,
                            ..ControlWord::empty()
                        },
                    ],
                ),
            ),
            Keyword::Shr(a) => Ok(
                ctrl_vec(
                    vec![
                        ControlWord {
                            read_from: ACCUMULATOR,
                            write_to: a.address(),
                            alu_left: a.address(),
                            alu_shift: SHIFT_RIGHT,
                            alu_logic: LOGIC_ZERO,
                            ..ControlWord::empty()
                        },
                    ],
                ),
            ),
            Keyword::Jmp(_) => Ok(
                ctrl_vec(
                    vec![
                        ControlWord {
                            read_from: PROGRAM_COUNTER,
                            write_to: MEMORY_ADDRESS,
                            ..ControlWord::empty()
                        },
                        ControlWord {
                            read_from: MEMORY,
                            write_to: PROGRAM_COUNTER,
                            ..ControlWord::empty()
                        },
                    ],
                ),
            ),
            Keyword::Hlt => {
                let r = vec![ControlWord { halt: true, ..ControlWord::empty() }];
                assert(r@ =~= seq![halt_word()]);
                Ok(r)
            },
            Keyword::Jc(_) => Err(CompileError::Unimplemented(Mnemonic::Jc)),
            Keyword::Jz(_) => Err(CompileError::Unimplemented(Mnemonic::Jz)),
            Keyword::Nop => Err(CompileError::Unimplemented(Mnemonic::Nop)),
        }
    }
}

proof fn lemma_execute_cycles_plain(k: Keyword)
    ensures
        execute_cycles(k) matches Some(e) ==> forall|i: int|
            0 <= i < e.len() ==> (#[trigger] e[i]).fits_layout() && !e[i].step_reset,
{
    if let Keyword::Mov(from, to) = k {
        assert(from.spec_address() < 8 && to.spec_address() < 16);
    }
}

/// Every instruction that has microcode starts with the two fetch cycles and
/// ends with the step-reset cycle, the only one that asserts step reset; `hlt`
/// alone is the one halt cycle, with neither. Only the conditional jumps and
/// `nop` have no microcode. Every cycle fits the ROM layout.
pub proof fn lemma_microcode_frame(k: Keyword)
    ensures
        microcode(k) is None <==> (k is Jc || k is Jz || k is Nop),
        k is Hlt ==> microcode(k) == Some(seq![halt_word()]),
        !(k is Hlt) ==> (microcode(k) matches Some(s) ==> {
            &&& s.len() >= 3
            &&& s[0] == fetch_prologue()[0]
            &&& s[1] == fetch_prologue()[1]
            &&& s.last() == step_reset_word()
            &&& forall|i: int| 0 <= i < s.len() - 1 ==> !(#[trigger] s[i]).step_reset
        }),
        microcode(k) matches Some(s) ==> forall|i: int| 0 <= i < s.len() ==> (#[trigger] s[i]).fits_layout(),
{
    lemma_execute_cycles_plain(k);
    if let Some(e) = execute_cycles(k) {
        if !(k is Hlt) {
            let s = framed(e);
            assert forall|i: int| 0 <= i < s.len() implies (#[trigger] s[i]).fits_layout() && (i < s.len()
                - 1 ==> !s[i].step_reset) by {
                if 2 <= i < s.len() - 1 {
                    assert(s[i] == e[i - 2]);
                }
            }
        }
    }
}

/// An instruction set whose instructions compile to microcode.
pub trait GenMicrocode: Sized {
    /// The cycle sequence of an instruction; `None` where it has none.
    spec fn spec_microcode(&self) -> Option<Seq<ControlWord>>;

    /// Checks the instruction set's opcode table: true when every declared
    /// variant's opcode is the one that declaration-order assignment gives it.
    fn test() -> bool;

    /// The control words of every cycle of the instruction.
    fn microcode(&self) -> (r: Result<Vec<ControlWord>, CompileError>)
        ensures
            match self.spec_microcode() {
                Some(s) => r matches Ok(v) && v@ == s,
                None => r is Err,
            },
    ;
}

impl GenMicrocode for Keyword {
    open spec fn spec_microcode(&self) -> Option<Seq<ControlWord>> {
        microcode(*self)
    }

    fn test() -> (r: bool)
        ensures
            r,
    {
        let order = Mnemonic::declared();
        let mut i: usize = 0;
        while i < order.len()
            invariant
                order@ == declaration_order(),
                i <= order@.len(),
            decreases order.len() - i,
        {
            let m = order[i];
            proof {
                lemma_declared_opcode(m);
            }
            match assign_opcode(&order, m) {
                Ok(p) => {
                    proof {
                        lemma_opcode_unique(order@, m, p as int, m.ordinal() as int);
                    }
                    if p != m.opcode() {
                        return false;
                    }
                },
                Err(_) => {
                    assert(order@.contains(m));
                    return false;
                },
            }
            i += 1;
        }
        true
    }

    fn microcode(&self) -> (r: Result<Vec<ControlWord>, CompileError>) {
        self.control_words()
    }
}

} // verus!
