//! Opcode assignment: a mnemonic's opcode is its zero-based position in the
//! declaration order of the instruction set.
use vstd::prelude::*;

use crate::instruction::{declaration_order, Mnemonic};

verus! {

/// Number of opcodes that the ROM's outer index can tell apart.
pub const OPCODE_SPACE: usize = 256;

/// Why a mnemonic gets no opcode.
#[derive(Debug, Clone, Copy, PartialEq, Eq, Structural)]
pub enum OpcodeError {
    /// The declaration has more variants than there are opcodes.
    SpaceExhausted,
    /// The mnemonic is not declared.
    Undeclared(Mnemonic),
}

/// `p` is the opcode of `m` under `order`: the first position holding `m`.
pub open spec fn is_opcode_of(order: Seq<Mnemonic>, m: Mnemonic, p: int) -> bool {
    &&& 0 <= p < order.len()
    &&& order[p] == m
    &&& forall|j: int| 0 <= j < p ==> order[j] != m
}

/// The opcode of `m` under the declaration order `order`.
pub fn assign_opcode(order: &Vec<Mnemonic>, m: Mnemonic) -> (r: Result<u8, OpcodeError>)
    ensures
        order@.len() > OPCODE_SPACE ==> r == Err::<u8, OpcodeError>(OpcodeError::SpaceExhausted),
        order@.len() <= OPCODE_SPACE && !order@.contains(m) ==> r == Err::<u8, OpcodeError>(
            OpcodeError::Undeclared(m),
        ),
        order@.len() <= OPCODE_SPACE && order@.contains(m) ==> r is Ok,
        r matches Ok(p) ==> is_opcode_of(order@, m, p as int),
{
    if order.len() > OPCODE_SPACE {
        return Err(OpcodeError::SpaceExhausted);
    }
    let mut i: usize = 0;
    while i < order.len()
        invariant
            i <= order@.len() <= OPCODE_SPACE,
            forall|j: int| 0 <= j < i ==> order@[j] != m,
        decreases order.len() - i,
    {
        if order[i] == m {
            return Ok(i as u8);
        }
        i += 1;
    }
    Err(OpcodeError::Undeclared(m))
}

/// Assignment is deterministic: a declaration order gives a mnemonic at most
/// one opcode, so assigning again on the same order gives the same opcode.
pub proof fn lemma_opcode_unique(order: Seq<Mnemonic>, m: Mnemonic, p: int, q: int)
    requires
        is_opcode_of(order, m, p),
        is_opcode_of(order, m, q),
    ensures
        p == q,
{
}

/// Opcodes are dense and zero-based: in a declaration without repeats, the
/// variant at position `i` has opcode `i`.
pub proof fn lemma_opcode_is_position(order: Seq<Mnemonic>, i: int)
    requires
        order.no_duplicates(),
        0 <= i < order.len(),
    ensures
        is_opcode_of(order, order[i], i),
{
}

/// Reordering a declaration changes opcodes: of two different declarations
/// without repeats and of one length, some mnemonic has an opcode under the
/// first that it does not have under the second.
pub proof fn lemma_reordering_changes_opcodes(o1: Seq<Mnemonic>, o2: Seq<Mnemonic>)
    requires
        o1.no_duplicates(),
        o2.no_duplicates(),
        o1.len() == o2.len(),
        o1 != o2,
    ensures
        exists|m: Mnemonic, p: int| is_opcode_of(o1, m, p) && !is_opcode_of(o2, m, p),
{
    if forall|i: int| 0 <= i < o1.len() ==> o1[i] == o2[i] {
        assert(o1 =~= o2);
    }
    let i = choose|i: int| 0 <= i < o1.len() && o1[i] != o2[i];
    lemma_opcode_is_position(o1, i);
    assert(is_opcode_of(o1, o1[i], i) && !is_opcode_of(o2, o1[i], i));
}

/// The opcode of every mnemonic, and so of every instruction, is the one that
/// the instruction set's declaration order assigns to it.
pub proof fn lemma_declared_opcode(m: Mnemonic)
    ensures
        is_opcode_of(declaration_order(), m, m.ordinal() as int),
        declaration_order().no_duplicates(),
{
    let d = declaration_order();
    assert(d.no_duplicates()) by {
        assert forall|i: int, j: int| 0 <= i < d.len() && 0 <= j < d.len() && i != j implies d[i]
            != d[j] by {
            assert(d[i].ordinal() == i && d[j].ordinal() == j);
        }
    }
    assert(d[m.ordinal() as int] == m);
    lemma_opcode_is_position(d, m.ordinal() as int);
}

} // verus!
