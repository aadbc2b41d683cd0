//! Decoding of fixed-width machine-instruction opcodes through a small
//! bit-template language: templates compile to mask/compare and mask/shift
//! pairs, and an ordered rule table turns opcode bytes into instructions.
pub mod pattern;
pub mod operands;
pub mod decoding;
pub mod rules;
pub mod opcodes;

pub use decoding::{Arg, DecodeError, Instruction, RegOrImm, Register};
pub use opcodes::decode;
pub use operands::Operand;
pub use pattern::{
    bitcap, bitcmp, compile_compare, compile_field, extract, CompiledField, CompiledMask,
    PatternError,
};
pub use rules::{Form, Rule, RuleTable};
