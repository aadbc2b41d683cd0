//! Instruction mnemonics.
use vstd::prelude::*;

verus! {

/// The mnemonic of a decoded instruction.
#[derive(Debug, Clone, Copy, PartialEq, Eq, Structural)]
pub enum Operand {
    NOP,
    HALT,
    RET,
    ADD,
    LD,
    LDH,
}

} // verus!
