use opdecode::Arg::{Direct, Indirect};
use opdecode::Operand::{HALT, LD, LDH};
use opdecode::RegOrImm::{Immediate, Reg};
use opdecode::Register::{A, B, BC, C, D, DE, E, H, HL, L};
use opdecode::{decode, Arg, DecodeError, Instruction, Operand};

fn instruction(operand: Operand, args: Vec<Arg>) -> Result<Instruction, DecodeError> {
    Ok(Instruction::new(operand, args))
}

#[test]
fn main_decoding() {
    assert_eq!(decode([0x41, 0x0, 0x0]), instruction(LD, vec![Direct(Reg(B)), Direct(Reg(C))]));
    // 0x80 has no rule in the table.
    assert_eq!(decode([0x80, 0x0, 0x0]), Err(DecodeError::UnknownOpcode([0x80, 0x0, 0x0])));
}

#[test]
fn tests_decoding() {
    assert_eq!(decode([0x41, 0x0, 0x0]), instruction(LD, vec![Direct(Reg(B)), Direct(Reg(C))]));
    assert_eq!(decode([0x06, 0xF, 0x0]), instruction(LD, vec![Direct(Reg(B)), Direct(Immediate(0xF))]));
    assert_eq!(decode([0x46, 0x0, 0x0]), instruction(LD, vec![Direct(Reg(B)), Indirect(Reg(HL))]));
    assert_eq!(decode([0x70, 0x0, 0x0]), instruction(LD, vec![Indirect(Reg(HL)), Direct(Reg(B))]));
    assert_eq!(decode([0x36, 0xE, 0x0]), instruction(LD, vec![Indirect(Reg(HL)), Direct(Immediate(0xE))]));
    assert_eq!(decode([0x0A, 0x0, 0x0]), instruction(LD, vec![Direct(Reg(A)), Indirect(Reg(BC))]));
    assert_eq!(decode([0x1A, 0x0, 0x0]), instruction(LD, vec![Direct(Reg(A)), Indirect(Reg(DE))]));
    assert_eq!(decode([0x02, 0x0, 0x0]), instruction(LD, vec![Indirect(Reg(BC)), Direct(Reg(A))]));
    assert_eq!(decode([0x12, 0x0, 0x0]), instruction(LD, vec![Indirect(Reg(DE)), Direct(Reg(A))]));
    assert_eq!(decode([0x0FA, 0xFF, 0xFF]), instruction(LD, vec![Direct(Reg(A)), Direct(Immediate(0xFF)), Direct(Immediate(0xFF))]));
    assert_eq!(decode([0xEA, 0xFF, 0xFF]), instruction(LD, vec![Direct(Immediate(0xFF)), Direct(Immediate(0xFF)), Direct(Reg(A))]));
}

#[test]
fn unmapped_opcode_is_an_error() {
    assert_eq!(decode([0xFF, 0x00, 0x00]), Err(DecodeError::UnknownOpcode([0xFF, 0x00, 0x00])));
    assert_eq!(decode([0x00, 0x12, 0x34]), Err(DecodeError::UnknownOpcode([0x00, 0x12, 0x34])));
}

#[test]
fn high_loads() {
    assert_eq!(decode([0xF2, 0x00, 0x00]), instruction(LDH, vec![Direct(Reg(A)), Indirect(Reg(C))]));
    assert_eq!(decode([0xE2, 0x00, 0x00]), instruction(LDH, vec![Indirect(Reg(C)), Direct(Reg(A))]));
    assert_eq!(decode([0xF0, 0x42, 0x00]), instruction(LDH, vec![Direct(Reg(A)), Indirect(Immediate(0x42))]));
}

#[test]
fn halt_is_not_a_load() {
    assert_eq!(decode([0x76, 0x00, 0x00]), instruction(HALT, vec![]));
}

#[test]
fn register_fields_map_in_order() {
    let regs = [B, C, D, E, H, L];
    for d in 0u8..6 {
        for s in 0u8..6 {
            let x = 0x40 | (d << 3) | s;
            assert_eq!(decode([x, 0, 0]), instruction(LD, vec![Direct(Reg(regs[d as usize])), Direct(Reg(regs[s as usize]))]));
        }
        assert_eq!(decode([0x06 | (d << 3), 0x99, 0]), instruction(LD, vec![Direct(Reg(regs[d as usize])), Direct(Immediate(0x99))]));
        assert_eq!(decode([0x46 | (d << 3), 0, 0]), instruction(LD, vec![Direct(Reg(regs[d as usize])), Indirect(Reg(HL))]));
        assert_eq!(decode([0x70 | d, 0, 0]), instruction(LD, vec![Indirect(Reg(HL)), Direct(Reg(regs[d as usize]))]));
    }
}

#[test]
fn unmapped_register_field_is_an_error() {
    // LD A, n: the field holds 7, which names no register here.
    assert_eq!(decode([0x3E, 0x01, 0x00]), Err(DecodeError::InvalidRegisterIndex(7)));
    assert_eq!(decode([0x47, 0x00, 0x00]), Err(DecodeError::InvalidRegisterIndex(7)));
    assert_eq!(decode([0x7E, 0x00, 0x00]), Err(DecodeError::InvalidRegisterIndex(7)));
    assert_eq!(decode([0x77, 0x00, 0x00]), Err(DecodeError::InvalidRegisterIndex(7)));
}

#[test]
fn every_window_gets_an_answer() {
    for x in 0u8..=255 {
        for y in [0x00u8, 0x5A, 0xFF] {
            match decode([x, y, y]) {
                Ok(_) => {}
                Err(DecodeError::UnknownOpcode(w)) => assert_eq!(w, [x, y, y]),
                Err(DecodeError::InvalidRegisterIndex(k)) => assert!(k == 6 || k == 7),
            }
        }
    }
}

#[test]
fn literal_opcodes_ignore_unused_bytes() {
    for y in [0x00u8, 0x01, 0x80, 0xFF] {
        assert_eq!(decode([0x0A, y, y]), instruction(LD, vec![Direct(Reg(A)), Indirect(Reg(BC))]));
        assert_eq!(decode([0x1A, y, 0x00]), instruction(LD, vec![Direct(Reg(A)), Indirect(Reg(DE))]));
        assert_eq!(decode([0x02, 0x00, y]), instruction(LD, vec![Indirect(Reg(BC)), Direct(Reg(A))]));
        assert_eq!(decode([0x12, y, y]), instruction(LD, vec![Indirect(Reg(DE)), Direct(Reg(A))]));
        assert_eq!(decode([0x36, y, 0x33]), instruction(LD, vec![Indirect(Reg(HL)), Direct(Immediate(y))]));
        assert_eq!(decode([0xF2, y, y]), instruction(LDH, vec![Direct(Reg(A)), Indirect(Reg(C))]));
        assert_eq!(decode([0xE2, y, y]), instruction(LDH, vec![Indirect(Reg(C)), Direct(Reg(A))]));
        assert_eq!(decode([0x76, y, y]), instruction(HALT, vec![]));
        assert_eq!(decode([0xFA, 0x12, y]), instruction(LD, vec![Direct(Reg(A)), Direct(Immediate(0x12)), Direct(Immediate(y))]));
        assert_eq!(decode([0xEA, y, 0x34]), instruction(LD, vec![Direct(Immediate(y)), Direct(Immediate(0x34)), Direct(Reg(A))]));
    }
}
