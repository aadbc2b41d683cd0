//! The decoded instruction: a mnemonic and its ordered arguments.
use vstd::prelude::*;
use crate::operands::Operand;

verus! {

/// A register: the 8-bit ones, then the 16-bit pairs.
#[derive(Debug, Clone, Copy, PartialEq, Eq, Structural)]
pub enum Register {
    A,
    B,
    C,
    D,
    E,
    H,
    L,
    F,
    AF,
    BC,
    DE,
    HL,
}

/// A register or a literal byte from the instruction stream.
#[derive(Debug, Clone, Copy, PartialEq, Eq, Structural)]
pub enum RegOrImm {
    Reg(Register),
    Immediate(u8),
}

/// An argument, used as it is or as a memory address.
#[derive(Debug, Clone, Copy, PartialEq, Eq, Structural)]
pub enum Arg {
    Direct(RegOrImm),
    Indirect(RegOrImm),
}

/// Why a byte window could not be decoded.
#[derive(Debug, Clone, Copy)]
pub enum DecodeError {
    /// No rule matches the window, which is held here.
    UnknownOpcode([u8; 3]),
    /// A register field holds a number with no register.
    InvalidRegisterIndex(u8),
}

impl PartialEq for DecodeError {
    fn eq(&self, other: &DecodeError) -> (r: bool) {
        match (self, other) {
            (DecodeError::UnknownOpcode(a), DecodeError::UnknownOpcode(b)) => {
                let same = a[0] == b[0] && a[1] == b[1] && a[2] == b[2];
                proof {
                    if same {
                        assert(a =~= b);
                    }
                }
                same
            },
            (DecodeError::InvalidRegisterIndex(a), DecodeError::InvalidRegisterIndex(b)) => *a == *b,
            _ => false,
        }
    }
}

impl vstd::std_specs::cmp::PartialEqSpecImpl for DecodeError {
    open spec fn obeys_eq_spec() -> bool {
        true
    }

    open spec fn eq_spec(&self, other: &DecodeError) -> bool {
        *self == *other
    }
}

impl Eq for DecodeError {

}

/// The register that a 3-bit register field names: 0 to 5 are B, C, D, E, H, L.
pub open spec fn register_of(index: u8) -> Result<Register, DecodeError> {
    if index == 0 {
        Ok(Register::B)
    } else if index == 1 {
        Ok(Register::C)
    } else if index == 2 {
        Ok(Register::D)
    } else if index == 3 {
        Ok(Register::E)
    } else if index == 4 {
        Ok(Register::H)
    } else if index == 5 {
        Ok(Register::L)
    } else {
        Err(DecodeError::InvalidRegisterIndex(index))
    }
}

impl Register {
    /// Maps a register field to its register; other numbers are refused.
    pub fn from_index(index: u8) -> (r: Result<Register, DecodeError>)
        ensures
            r == register_of(index),
    {
        match index {
            0 => Ok(Register::B),
            1 => Ok(Register::C),
            2 => Ok(Register::D),
            3 => Ok(Register::E),
            4 => Ok(Register::H),
            5 => Ok(Register::L),
            _ => Err(DecodeError::InvalidRegisterIndex(index)),
        }
    }
}

/// A decoded instruction: the mnemonic, then the arguments in the order of
/// the opcode table (destination before source).
#[derive(Debug, Clone)]
pub struct Instruction {
    pub operand: Operand,
    pub args: Vec<Arg>,
}

impl View for Instruction {
    type V = (Operand, Seq<Arg>);

    open spec fn view(&self) -> (Operand, Seq<Arg>) {
        (self.operand, self.args@)
    }
}

impl Instruction {
    pub fn new(operand: Operand, args: Vec<Arg>) -> (r: Instruction)
        ensures
            r@ == (operand, args@),
    {
        Instruction { operand, args }
    }
}

impl PartialEq for Instruction {
    fn eq(&self, other: &Instruction) -> (r: bool) {
        if self.operand != other.operand || self.args.len() != other.args.len() {
            return false;
        }
        let mut i: usize = 0;
        while i < self.args.len()
            invariant
                self.args.len() == other.args.len(),
                forall|j: int| 0 <= j < i ==> self.args@[j] == other.args@[j],
            decreases self.args.len() - i,
        {
            if self.args[i] != other.args[i] {
                return false;
            }
            i = i + 1;
        }
        proof {
            assert(self.args@ =~= other.args@);
        }
        true
    }
}

impl vstd::std_specs::cmp::PartialEqSpecImpl for Instruction {
    open spec fn obeys_eq_spec() -> bool {
        true
    }

    open spec fn eq_spec(&self, other: &Instruction) -> bool {
        self@ == other@
    }
}

impl Eq for Instruction {

}

/// The view of a decode result.
pub open spec fn result_view(r: Result<Instruction, DecodeError>) -> Result<
    (Operand, Seq<Arg>),
    DecodeError,
> {
    match r {
        Ok(i) => Ok(i@),
        Err(e) => Err(e),
    }
}

} // verus!
