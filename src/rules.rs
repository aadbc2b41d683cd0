//! The ordered rule table: each rule is a guard on the opcode byte and a form
//! that builds the instruction; the first rule whose guard holds decides.
use vstd::prelude::*;
use crate::decoding::{
    Arg, DecodeError, Instruction, RegOrImm, Register, register_of, result_view,
};
use crate::operands::Operand;
use crate::pattern::{
    CompiledField, CompiledMask, PatternError, compare_of, compile_compare, extract, extract_spec,
    matches_spec,
};

verus! {

/// How a rule builds its instruction from the matched window.
#[derive(Debug, Clone, Copy, PartialEq, Eq, Structural)]
pub enum Form {
    /// `LD r, r'`, both registers from fields of the opcode.
    LoadRegReg { dst: CompiledField, src: CompiledField },
    /// `LD r, n`, the register from a field, the immediate from the second byte.
    LoadRegImm { dst: CompiledField },
    /// `LD r, (HL)`
    LoadRegFromHl { dst: CompiledField },
    /// `LD (HL), r`
    LoadHlFromReg { src: CompiledField },
    /// `LD (HL), n`
    LoadHlFromImm,
    /// `LD A, (rr)` for the given pair.
    LoadAFromPair(Register),
    /// `LD (rr), A` for the given pair.
    LoadPairFromA(Register),
    /// `LD A, (nn)`, the address in the second and third bytes.
    LoadAFromAddr,
    /// `LD (nn), A`
    LoadAddrFromA,
    /// `LDH A, (C)`
    LoadHighAFromC,
    /// `LDH (C), A`
    LoadHighCFromA,
    /// `LDH A, (n)`
    LoadHighAFromImm,
    /// `HALT`
    Halt,
}

/// A register used as it is.
pub open spec fn direct(r: Register) -> Arg {
    Arg::Direct(RegOrImm::Reg(r))
}

/// A register used as a memory address.
pub open spec fn indirect(r: Register) -> Arg {
    Arg::Indirect(RegOrImm::Reg(r))
}

/// An immediate used as it is.
pub open spec fn direct_imm(n: u8) -> Arg {
    Arg::Direct(RegOrImm::Immediate(n))
}

/// An immediate used as a memory address.
pub open spec fn indirect_imm(n: u8) -> Arg {
    Arg::Indirect(RegOrImm::Immediate(n))
}

/// A load whose destination register comes from a register field.
pub open spec fn load_into(dst: Result<Register, DecodeError>, src: Arg) -> Result<
    (Operand, Seq<Arg>),
    DecodeError,
> {
    match dst {
        Ok(d) => Ok((Operand::LD, seq![direct(d), src])),
        Err(e) => Err(e),
    }
}

/// A load whose source register comes from a register field.
pub open spec fn load_from(dst: Arg, src: Result<Register, DecodeError>) -> Result<
    (Operand, Seq<Arg>),
    DecodeError,
> {
    match src {
        Ok(s) => Ok((Operand::LD, seq![dst, direct(s)])),
        Err(e) => Err(e),
    }
}

/// The instruction that a form builds from a window.
pub open spec fn build_spec(form: Form, w: [u8; 3]) -> Result<(Operand, Seq<Arg>), DecodeError> {
    let x = w[0];
    match form {
        Form::LoadRegReg { dst, src } => match register_of(extract_spec(x, dst)) {
            Ok(d) => load_from(direct(d), register_of(extract_spec(x, src))),
            Err(e) => Err(e),
        },
        Form::LoadRegImm { dst } => load_into(register_of(extract_spec(x, dst)), direct_imm(w[1])),
        Form::LoadRegFromHl { dst } => load_into(
            register_of(extract_spec(x, dst)),
            indirect(Register::HL),
        ),
        Form::LoadHlFromReg { src } => load_from(
            indirect(Register::HL),
            register_of(extract_spec(x, src)),
        ),
        Form::LoadHlFromImm => Ok((Operand::LD, seq![indirect(Register::HL), direct_imm(w[1])])),
        Form::LoadAFromPair(p) => Ok((Operand::LD, seq![direct(Register::A), indirect(p)])),
        Form::LoadPairFromA(p) => Ok((Operand::LD, seq![indirect(p), direct(Register::A)])),
        Form::LoadAFromAddr => Ok(
            (Operand::LD, seq![direct(Register::A), direct_imm(w[1]), direct_imm(w[2])]),
        ),
        Form::LoadAddrFromA => Ok(
            (Operand::LD, seq![direct_imm(w[1]), direct_imm(w[2]), direct(Register::A)]),
        ),
        Form::LoadHighAFromC => Ok((Operand::LDH, seq![direct(Register::A), indirect(Register::C)])),
        Form::LoadHighCFromA => Ok((Operand::LDH, seq![indirect(Register::C), direct(Register::A)])),
        Form::LoadHighAFromImm => Ok((Operand::LDH, seq![direct(Register::A), indirect_imm(w[1])])),
        Form::Halt => Ok((Operand::HALT, Seq::empty())),
    }
}

fn reg_arg(r: Register) -> (a: Arg)
    ensures
        a == direct(r),
{
    Arg::Direct(RegOrImm::Reg(r))
}

fn ind_arg(r: Register) -> (a: Arg)
    ensures
        a == indirect(r),
{
    Arg::Indirect(RegOrImm::Reg(r))
}

fn imm_arg(n: u8) -> (a: Arg)
    ensures
        a == direct_imm(n),
{
    Arg::Direct(RegOrImm::Immediate(n))
}

fn pair(operand: Operand, a: Arg, b: Arg) -> (r: Instruction)
    ensures
        r@ == (operand, seq![a, b]),
{
    let mut args: Vec<Arg> = Vec::new();
    args.push(a);
    args.push(b);
    proof {
        assert(args@ =~= seq![a, b]);
    }
    Instruction::new(operand, args)
}

fn triple(operand: Operand, a: Arg, b: Arg, c: Arg) -> (r: Instruction)
    ensures
        r@ == (operand, seq![a, b, c]),
{
    let mut args: Vec<Arg> = Vec::new();
    args.push(a);
    args.push(b);
    args.push(c);
    proof {
        assert(args@ =~= seq![a, b, c]);
    }
    Instruction::new(operand, args)
}

/// The register that a field of the opcode names.
fn field_register(x: u8, f: CompiledField) -> (r: Result<Register, DecodeError>)
    ensures
        r == register_of(extract_spec(x, f)),
{
    Register::from_index(extract(x, f))
}

/// Builds the instruction of a form from the matched window.
pub fn build(form: Form, w: [u8; 3]) -> (r: Result<Instruction, DecodeError>)
    ensures
        result_view(r) == build_spec(form, w),
{
    let x = w[0];
    match form {
        Form::LoadRegReg { dst, src } => {
            let d = field_register(x, dst)?;
            let s = field_register(x, src)?;
            Ok(pair(Operand::LD, reg_arg(d), reg_arg(s)))
        },
        Form::LoadRegImm { dst } => {
            let d = field_register(x, dst)?;
            Ok(pair(Operand::LD, reg_arg(d), imm_arg(w[1])))
        },
        Form::LoadRegFromHl { dst } => {
            let d = field_register(x, dst)?;
            Ok(pair(Operand::LD, reg_arg(d), ind_arg(Register::HL)))
        },
        Form::LoadHlFromReg { src } => {
            let s = field_register(x, src)?;
            Ok(pair(Operand::LD, ind_arg(Register::HL), reg_arg(s)))
        },
        Form::LoadHlFromImm => Ok(pair(Operand::LD, ind_arg(Register::HL), imm_arg(w[1]))),
        Form::LoadAFromPair(p) => Ok(pair(Operand::LD, reg_arg(Register::A), ind_arg(p))),
        Form::LoadPairFromA(p) => Ok(pair(Operand::LD, ind_arg(p), reg_arg(Register::A))),
        Form::LoadAFromAddr => Ok(
            triple(Operand::LD, reg_arg(Register::A), imm_arg(w[1]), imm_arg(w[2])),
        ),
        Form::LoadAddrFromA => Ok(
            triple(Operand::LD, imm_arg(w[1]), imm_arg(w[2]), reg_arg(Register::A)),
        ),
        Form::LoadHighAFromC => Ok(pair(Operand::LDH, reg_arg(Register::A), ind_arg(Register::C))),
        Form::LoadHighCFromA => Ok(pair(Operand::LDH, ind_arg(Register::C), reg_arg(Register::A))),
        Form::LoadHighAFromImm => Ok(
            pair(Operand::LDH, reg_arg(Register::A), Arg::Indirect(RegOrImm::Immediate(w[1]))),
        ),
        Form::Halt => Ok(Instruction::new(Operand::HALT, Vec::new())),
    }
}

/// A rule: a guard on the opcode byte and the form it builds.
#[derive(Debug, Clone, Copy, PartialEq, Eq, Structural)]
pub struct Rule {
    pub guard: CompiledMask,
    pub form: Form,
}

impl Rule {
    /// A rule whose guard is the template compiled for comparison.
    pub fn new(pattern: &str, form: Form) -> (r: Result<Rule, PatternError>)
        ensures
            match r {
                Ok(rule) => pattern@.len() == 8 && rule == (Rule { guard: compare_of(pattern@), form }),
                Err(e) => pattern@.len() != 8 && e == PatternError::InvalidPatternLength(
                    pattern@.len() as usize,
                ),
            },
    {
        let guard = compile_compare(pattern)?;
        Ok(Rule { guard, form })
    }
}

/// Whether a rule's guard holds of a window.
pub open spec fn applies(rule: Rule, w: [u8; 3]) -> bool {
    matches_spec(w[0], rule.guard)
}

/// The result of the first rule from index `i` on whose guard holds, or
/// `UnknownOpcode` where none does.
pub open spec fn first_match_from(rules: Seq<Rule>, i: int, w: [u8; 3]) -> Result<
    (Operand, Seq<Arg>),
    DecodeError,
>
    decreases rules.len() - i,
{
    if i < 0 || i >= rules.len() {
        Err(DecodeError::UnknownOpcode(w))
    } else if applies(rules[i], w) {
        build_spec(rules[i].form, w)
    } else {
        first_match_from(rules, i + 1, w)
    }
}

/// The result of decoding a window with a table: the first applicable rule decides.
pub open spec fn first_match(rules: Seq<Rule>, w: [u8; 3]) -> Result<
    (Operand, Seq<Arg>),
    DecodeError,
> {
    first_match_from(rules, 0, w)
}

/// Priority: the earliest rule whose guard holds decides the result, whatever
/// later rules also hold; where no guard holds the window is an unknown opcode.
pub proof fn lemma_earliest_rule_decides(rules: Seq<Rule>, i: int, w: [u8; 3])
    requires
        0 <= i <= rules.len(),
        forall|j: int| 0 <= j < i ==> !applies(#[trigger] rules[j], w),
    ensures
        i < rules.len() && applies(rules[i], w) ==> first_match(rules, w) == build_spec(
            rules[i].form,
            w,
        ),
        i == rules.len() ==> first_match(rules, w) == Err::<(Operand, Seq<Arg>), DecodeError>(
            DecodeError::UnknownOpcode(w),
        ),
{
    lemma_skip_unmatched(rules, i, w);
}

proof fn lemma_skip_unmatched(rules: Seq<Rule>, i: int, w: [u8; 3])
    requires
        0 <= i <= rules.len(),
        forall|j: int| 0 <= j < i ==> !applies(#[trigger] rules[j], w),
    ensures
        first_match(rules, w) == first_match_from(rules, i, w),
    decreases i,
{
    if i > 0 {
        lemma_skip_unmatched(rules, i - 1, w);
        assert(!applies(rules[i - 1], w));
    }
}

/// An ordered table of rules.
pub struct RuleTable {
    rules: Vec<Rule>,
}

impl View for RuleTable {
    type V = Seq<Rule>;

    closed spec fn view(&self) -> Seq<Rule> {
        self.rules@
    }
}

impl RuleTable {
    /// A table that tries the rules in the order given.
    pub fn new(rules: Vec<Rule>) -> (t: RuleTable)
        ensures
            t@ == rules@,
    {
        RuleTable { rules }
    }

    /// Decodes a window: the first rule whose guard holds builds the
    /// instruction; where none holds, the window is an unknown opcode.
    pub fn decode(&self, window: [u8; 3]) -> (r: Result<Instruction, DecodeError>)
        ensures
            result_view(r) == first_match(self@, window),
    {
        let mut i: usize = 0;
        while i < self.rules.len()
            invariant
                i <= self.rules@.len(),
                first_match(self.rules@, window) == first_match_from(self.rules@, i as int, window),
            decreases self.rules@.len() - i,
        {
            let rule = self.rules[i];
            if crate::pattern::matches(window[0], rule.guard) {
                return build(rule.form, window);
            }
            i = i + 1;
        }
        Err(DecodeError::UnknownOpcode(window))
    }
}

} // verus!
