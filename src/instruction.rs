//! The instruction set: operand kinds, mnemonics in declaration order, and
//! instructions with their operands.
use vstd::prelude::*;

use crate::bus::{
    ACCUMULATOR, BANK_SELECT, OUTPUT, REGISTER_A, REGISTER_B, REGISTER_C, REGISTER_D,
};

verus! {

/// Number of items in an enumeration.
pub trait FieldSize {
    spec fn spec_field_size() -> nat;

    fn field_size() -> (r: usize)
        ensures
            r == Self::spec_field_size(),
    ;
}

/// A general-purpose register: an ALU operand.
#[derive(Debug, Clone, Copy, PartialEq, Eq, Structural)]
pub enum GPR {
    A,
    B,
    C,
    D,
}

/// Source of a move: a general-purpose register, the bank-select register or
/// the accumulator.
#[derive(Debug, Clone, Copy, PartialEq, Eq, Structural)]
pub enum MovFrom {
    A,
    B,
    C,
    D,
    BS,
    Acc,
}

/// Destination of a move: a general-purpose register, the bank-select
/// register or the output latch.
#[derive(Debug, Clone, Copy, PartialEq, Eq, Structural)]
pub enum MovTo {
    A,
    B,
    C,
    D,
    BS,
    Out,
}

impl GPR {
    pub open spec fn spec_address(self) -> u8 {
        match self {
            GPR::A => REGISTER_A,
            GPR::B => REGISTER_B,
            GPR::C => REGISTER_C,
            GPR::D => REGISTER_D,
        }
    }

    /// Bus address of the register.
    pub fn address(self) -> (r: u8)
        ensures
            r == self.spec_address(),
    {
        match self {
            GPR::A => REGISTER_A,
            GPR::B => REGISTER_B,
            GPR::C => REGISTER_C,
            GPR::D => REGISTER_D,
        }
    }

    /// The register at bus address `a`; `None` where no register sits there.
    pub fn from_address(a: u8) -> (r: Option<GPR>)
        ensures
            match r {
                Some(g) => g.spec_address() == a,
                None => forall|g: GPR| g.spec_address() != a,
            },
    {
        if a == REGISTER_A {
            Some(GPR::A)
        } else if a == REGISTER_B {
            Some(GPR::B)
        } else if a == REGISTER_C {
            Some(GPR::C)
        } else if a == REGISTER_D {
            Some(GPR::D)
        } else {
            None
        }
    }
}

impl MovFrom {
    pub open spec fn spec_address(self) -> u8 {
        match self {
            MovFrom::A => REGISTER_A,
            MovFrom::B => REGISTER_B,
            MovFrom::C => REGISTER_C,
            MovFrom::D => REGISTER_D,
            MovFrom::BS => BANK_SELECT,
            MovFrom::Acc => ACCUMULATOR,
        }
    }

    /// Bus address of the source, as `read_from` takes it.
    pub fn address(self) -> (r: u8)
        ensures
            r == self.spec_address(),
    {
        match self {
            MovFrom::A => REGISTER_A,
            MovFrom::B => REGISTER_B,
            MovFrom::C => REGISTER_C,
            MovFrom::D => REGISTER_D,
            MovFrom::BS => BANK_SELECT,
            MovFrom::Acc => ACCUMULATOR,
        }
    }

    /// The move source at bus address `a`; `None` where no source sits there.
    pub fn from_address(a: u8) -> (r: Option<MovFrom>)
        ensures
            match r {
                Some(m) => m.spec_address() == a,
                None => forall|m: MovFrom| m.spec_address() != a,
            },
    {
        if a == REGISTER_A {
            Some(MovFrom::A)
        } else if a == REGISTER_B {
            Some(MovFrom::B)
        } else if a == REGISTER_C {
            Some(MovFrom::C)
        } else if a == REGISTER_D {
            Some(MovFrom::D)
        } else if a == BANK_SELECT {
            Some(MovFrom::BS)
        } else if a == ACCUMULATOR {
            Some(MovFrom::Acc)
        } else {
            None
        }
    }
}

impl MovTo {
    pub open spec fn spec_address(self) -> u8 {
        match self {
            MovTo::A => REGISTER_A,
            MovTo::B => REGISTER_B,
            MovTo::C => REGISTER_C,
            MovTo::D => REGISTER_D,
            MovTo::BS => BANK_SELECT,
            MovTo::Out => OUTPUT,
        }
    }

    /// Bus address of the destination, as `write_to` takes it.
    pub fn address(self) -> (r: u8)
        ensures
            r == self.spec_address(),
    {
        match self {
            MovTo::A => REGISTER_A,
            MovTo::B => REGISTER_B,
            MovTo::C => REGISTER_C,
            MovTo::D => REGISTER_D,
            MovTo::BS => BANK_SELECT,
            MovTo::Out => OUTPUT,
        }
    }

    /// The move destination at bus address `a`; `None` where no destination
    /// sits there.
    pub fn from_address(a: u8) -> (r: Option<MovTo>)
        ensures
            match r {
                Some(m) => m.spec_address() == a,
                None => forall|m: MovTo| m.spec_address() != a,
            },
    {
        if a == REGISTER_A {
            Some(MovTo::A)
        } else if a == REGISTER_B {
            Some(MovTo::B)
        } else if a == REGISTER_C {
            Some(MovTo::C)
        } else if a == REGISTER_D {
            Some(MovTo::D)
        } else if a == BANK_SELECT {
            Some(MovTo::BS)
        } else if a == OUTPUT {
            Some(MovTo::Out)
        } else {
            None
        }
    }
}

impl FieldSize for GPR {
    open spec fn spec_field_size() -> nat {
        4
    }

    fn field_size() -> (r: usize) {
        4
    }
}

impl FieldSize for MovFrom {
    open spec fn spec_field_size() -> nat {
        6
    }

    fn field_size() -> (r: usize) {
        6
    }
}

impl FieldSize for MovTo {
    open spec fn spec_field_size() -> nat {
        6
    }

    fn field_size() -> (r: usize) {
        6
    }
}

/// The mnemonic of an instruction, without its operands.
#[derive(Debug, Clone, Copy, PartialEq, Eq, Structural)]
pub enum Mnemonic {
    Mov,
    Sub,
    Add,
    And,
    Or,
    Xor,
    Cmp,
    Shl,
    Shr,
    Jmp,
    Jc,
    Jz,
    Hlt,
    Nop,
}

/// Number of mnemonics of the instruction set.
pub const MNEMONIC_COUNT: usize = 14;

/// The mnemonics in declaration order; an opcode is a position in it.
pub open spec fn declaration_order() -> Seq<Mnemonic> {
    seq![
        Mnemonic::Mov,
        Mnemonic::Sub,
        Mnemonic::Add,
        Mnemonic::And,
        Mnemonic::Or,
        Mnemonic::Xor,
        Mnemonic::Cmp,
        Mnemonic::Shl,
        Mnemonic::Shr,
        Mnemonic::Jmp,
        Mnemonic::Jc,
        Mnemonic::Jz,
        Mnemonic::Hlt,
        Mnemonic::Nop,
    ]
}

impl Mnemonic {
    /// Zero-based position in the declaration order.
    pub open spec fn ordinal(self) -> nat {
        match self {
            Mnemonic::Mov => 0,
            Mnemonic::Sub => 1,
            Mnemonic::Add => 2,
            Mnemonic::And => 3,
            Mnemonic::Or => 4,
            Mnemonic::Xor => 5,
            Mnemonic::Cmp => 6,
            Mnemonic::Shl => 7,
            Mnemonic::Shr => 8,
            Mnemonic::Jmp => 9,
            Mnemonic::Jc => 10,
            Mnemonic::Jz => 11,
            Mnemonic::Hlt => 12,
            Mnemonic::Nop => 13,
        }
    }

    /// Number of operands.
    pub open spec fn spec_arity(self) -> nat {
        match self {
            Mnemonic::Mov | Mnemonic::Sub | Mnemonic::Add | Mnemonic::And | Mnemonic::Or
            | Mnemonic::Xor | Mnemonic::Cmp => 2,
            Mnemonic::Shl | Mnemonic::Shr | Mnemonic::Jmp | Mnemonic::Jc | Mnemonic::Jz => 1,
            Mnemonic::Hlt | Mnemonic::Nop => 0,
        }
    }

    /// The mnemonics in declaration order.
    pub fn declared() -> (r: Vec<Mnemonic>)
        ensures
            r@ == declaration_order(),
    {
        let r = vec![
            Mnemonic::Mov,
            Mnemonic::Sub,
            Mnemonic::Add,
            Mnemonic::And,
            Mnemonic::Or,
            Mnemonic::Xor,
            Mnemonic::Cmp,
            Mnemonic::Shl,
            Mnemonic::Shr,
            Mnemonic::Jmp,
            Mnemonic::Jc,
            Mnemonic::Jz,
            Mnemonic::Hlt,
            Mnemonic::Nop,
        ];
        assert(r@ =~= declaration_order());
        r
    }

    /// The opcode: the mnemonic's position in the declaration order.
    pub fn opcode(self) -> (r: u8)
        ensures
            r == self.ordinal(),
            declaration_order()[r as int] == self,
    {
        match self {
            Mnemonic::Mov => 0,
            Mnemonic::Sub => 1,
            Mnemonic::Add => 2,
            Mnemonic::And => 3,
            Mnemonic::Or => 4,
            Mnemonic::Xor => 5,
            Mnemonic::Cmp => 6,
            Mnemonic::Shl => 7,
            Mnemonic::Shr => 8,
            Mnemonic::Jmp => 9,
            Mnemonic::Jc => 10,
            Mnemonic::Jz => 11,
            Mnemonic::Hlt => 12,
            Mnemonic::Nop => 13,
        }
    }

    /// Number of operands.
    pub fn arity(self) -> (r: usize)
        ensures
            r == self.spec_arity(),
    {
        match self {
            Mnemonic::Mov | Mnemonic::Sub | Mnemonic::Add | Mnemonic::And | Mnemonic::Or
            | Mnemonic::Xor | Mnemonic::Cmp => 2,
            Mnemonic::Shl | Mnemonic::Shr | Mnemonic::Jmp | Mnemonic::Jc | Mnemonic::Jz => 1,
            Mnemonic::Hlt | Mnemonic::Nop => 0,
        }
    }
}

impl FieldSize for Mnemonic {
    open spec fn spec_field_size() -> nat {
        declaration_order().len()
    }

    fn field_size() -> (r: usize) {
        MNEMONIC_COUNT
    }
}

/// An instruction with its operands.
#[derive(Debug, Clone, Copy, PartialEq, Eq, Structural)]
pub enum Keyword {
    Mov(MovFrom, MovTo),
    Sub(GPR, GPR),
    Add(GPR, GPR),
    And(GPR, GPR),
    Or(GPR, GPR),
    Xor(GPR, GPR),
    Cmp(GPR, GPR),
    Shl(GPR),
    Shr(GPR),
    Jmp(u8),
    Jc(u8),
    Jz(u8),
    Hlt,
    Nop,
}

impl Keyword {
    pub open spec fn spec_mnemonic(self) -> Mnemonic {
        match self {
            Keyword::Mov(..) => Mnemonic::Mov,
            Keyword::Sub(..) => Mnemonic::Sub,
            Keyword::Add(..) => Mnemonic::Add,
            Keyword::And(..) => Mnemonic::And,
            Keyword::Or(..) => Mnemonic::Or,
            Keyword::Xor(..) => Mnemonic::Xor,
            Keyword::Cmp(..) => Mnemonic::Cmp,
            Keyword::Shl(..) => Mnemonic::Shl,
            Keyword::Shr(..) => Mnemonic::Shr,
            Keyword::Jmp(..) => Mnemonic::Jmp,
            Keyword::Jc(..) => Mnemonic::Jc,
            Keyword::Jz(..) => Mnemonic::Jz,
            Keyword::Hlt => Mnemonic::Hlt,
            Keyword::Nop => Mnemonic::Nop,
        }
    }

    pub open spec fn spec_opcode(self) -> nat {
        self.spec_mnemonic().ordinal()
    }

    /// The instruction's mnemonic.
    pub fn mnemonic(&self) -> (r: Mnemonic)
        ensures
            r == self.spec_mnemonic(),
    {
        match self {
            Keyword::Mov(..) => Mnemonic::Mov,
            Keyword::Sub(..) => Mnemonic::Sub,
            Keyword::Add(..) => Mnemonic::Add,
            Keyword::And(..) => Mnemonic::And,
            Keyword::Or(..) => Mnemonic::Or,
            Keyword::Xor(..) => Mnemonic::Xor,
            Keyword::Cmp(..) => Mnemonic::Cmp,
            Keyword::Shl(..) => Mnemonic::Shl,
            Keyword::Shr(..) => Mnemonic::Shr,
            Keyword::Jmp(..) => Mnemonic::Jmp,
            Keyword::Jc(..) => Mnemonic::Jc,
            Keyword::Jz(..) => Mnemonic::Jz,
            Keyword::Hlt => Mnemonic::Hlt,
            Keyword::Nop => Mnemonic::Nop,
        }
    }

    /// The opcode: the position of the instruction's variant in the
    /// declaration order.
    pub fn opcode(&self) -> (r: u8)
        ensures
            r == self.spec_opcode(),
            declaration_order()[r as int] == self.spec_mnemonic(),
    {
        self.mnemonic().opcode()
    }
}

impl FieldSize for Keyword {
    open spec fn spec_field_size() -> nat {
        declaration_order().len()
    }

    fn field_size() -> (r: usize) {
        MNEMONIC_COUNT
    }
}

impl From<Keyword> for u8 {
    fn from(k: Keyword) -> (r: u8) {
        k.opcode()
    }
}

impl vstd::std_specs::convert::FromSpecImpl<Keyword> for u8 {
    open spec fn obeys_from_spec() -> bool {
        true
    }

    open spec fn from_spec(k: Keyword) -> u8 {
        k.spec_opcode() as u8
    }
}

} // verus!
