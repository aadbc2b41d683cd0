use opdecode::Arg::{Direct, Indirect};
use opdecode::Operand::LD;
use opdecode::RegOrImm::Reg;
use opdecode::Register::{self, B, C, HL};
use opdecode::{compile_field, DecodeError, Form, Instruction, PatternError, Rule, RuleTable};

fn general_rule() -> Rule {
    let dst = compile_field("00xxx000").unwrap();
    let src = compile_field("00000yyy").unwrap();
    Rule::new("01xxxyyy", Form::LoadRegReg { dst, src }).unwrap()
}

fn special_rule() -> Rule {
    let dst = compile_field("00xxx000").unwrap();
    Rule::new("01xxx110", Form::LoadRegFromHl { dst }).unwrap()
}

#[test]
fn earlier_rule_wins_on_overlap() {
    let specific_first = RuleTable::new(vec![special_rule(), general_rule()]);
    let general_first = RuleTable::new(vec![general_rule(), special_rule()]);
    assert_eq!(
        specific_first.decode([0x46, 0, 0]),
        Ok(Instruction::new(LD, vec![Direct(Reg(B)), Indirect(Reg(HL))]))
    );
    // The general rule reads field 6 as a register and fails.
    assert_eq!(general_first.decode([0x46, 0, 0]), Err(DecodeError::InvalidRegisterIndex(6)));
    // Where only one rule applies, the order does not matter.
    let expected = Ok(Instruction::new(LD, vec![Direct(Reg(B)), Direct(Reg(C))]));
    assert_eq!(specific_first.decode([0x41, 0, 0]), expected);
    assert_eq!(general_first.decode([0x41, 0, 0]), expected);
}

#[test]
fn empty_table_knows_nothing() {
    let t = RuleTable::new(vec![]);
    assert_eq!(t.decode([0x41, 1, 2]), Err(DecodeError::UnknownOpcode([0x41, 1, 2])));
}

#[test]
fn rule_with_bad_template_is_refused() {
    assert_eq!(Rule::new("01x", Form::Halt), Err(PatternError::InvalidPatternLength(3)));
}

#[test]
fn standard_table_matches_free_decode() {
    let t = RuleTable::standard();
    for x in 0u8..=255 {
        assert_eq!(t.decode([x, 0x11, 0x22]), opdecode::decode([x, 0x11, 0x22]));
    }
}

#[test]
fn register_index_mapping() {
    assert_eq!(Register::from_index(0), Ok(B));
    assert_eq!(Register::from_index(5), Ok(Register::L));
    assert_eq!(Register::from_index(6), Err(DecodeError::InvalidRegisterIndex(6)));
    assert_eq!(Register::from_index(200), Err(DecodeError::InvalidRegisterIndex(200)));
}
