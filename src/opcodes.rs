//! The opcode table of the modelled 8-bit CPU's loads, written as templates,
//! and the decoder built on it.
use vstd::prelude::*;
use crate::decoding::{Arg, DecodeError, Instruction, Register, register_of, result_view};
use crate::operands::Operand;
use crate::pattern::{
    CompiledField, CompiledMask, compare_of, compile_compare, compile_field, field_of,
    is_wildcard, wildcards_adjacent, kind_bits, last_wildcard,
};
use crate::rules::{
    Form, Rule, RuleTable, direct, direct_imm, first_match, indirect, indirect_imm, load_from,
    load_into,
};

verus! {

/// The opcode table, in the order it is tried: fully literal opcodes first,
/// then the patterns with register fields, the widest last.
pub open spec fn opcode_table(w: [u8; 3]) -> Result<(Operand, Seq<Arg>), DecodeError> {
    let x = w[0];
    let hi = register_of((x & 0x38) >> 3);
    let lo = register_of(x & 0x07);
    if x == 0x36 {
        Ok((Operand::LD, seq![indirect(Register::HL), direct_imm(w[1])]))
    } else if x == 0x0A {
        Ok((Operand::LD, seq![direct(Register::A), indirect(Register::BC)]))
    } else if x == 0x1A {
        Ok((Operand::LD, seq![direct(Register::A), indirect(Register::DE)]))
    } else if x == 0x02 {
        Ok((Operand::LD, seq![indirect(Register::BC), direct(Register::A)]))
    } else if x == 0x12 {
        Ok((Operand::LD, seq![indirect(Register::DE), direct(Register::A)]))
    } else if x == 0xFA {
        Ok((Operand::LD, seq![direct(Register::A), direct_imm(w[1]), direct_imm(w[2])]))
    } else if x == 0xEA {
        Ok((Operand::LD, seq![direct_imm(w[1]), direct_imm(w[2]), direct(Register::A)]))
    } else if x == 0xF2 {
        Ok((Operand::LDH, seq![direct(Register::A), indirect(Register::C)]))
    } else if x == 0xE2 {
        Ok((Operand::LDH, seq![indirect(Register::C), direct(Register::A)]))
    } else if x == 0xF0 {
        Ok((Operand::LDH, seq![direct(Register::A), indirect_imm(w[1])]))
    } else if x == 0x76 {
        Ok((Operand::HALT, Seq::empty()))
    } else if x & 0xC7 == 0x46 {
        load_into(hi, indirect(Register::HL))
    } else if x & 0xF8 == 0x70 {
        load_from(indirect(Register::HL), lo)
    } else if x & 0xC7 == 0x06 {
        load_into(hi, direct_imm(w[1]))
    } else if x & 0xC0 == 0x40 {
        match hi {
            Ok(d) => load_from(direct(d), lo),
            Err(e) => Err(e),
        }
    } else {
        Err(DecodeError::UnknownOpcode(w))
    }
}

/// A rule for one fully literal opcode.
pub open spec fn literal(opcode: u8, form: Form) -> Rule {
    Rule { guard: CompiledMask { mask: 0xFF, compare: opcode }, form }
}

/// The register field in bits 5 to 3 (template `00xxx000`).
pub open spec fn high_field() -> CompiledField {
    CompiledField { mask: 0x38, shift: 3 }
}

/// The register field in bits 2 to 0 (template `00000xxx`).
pub open spec fn low_field() -> CompiledField {
    CompiledField { mask: 0x07, shift: 0 }
}

/// The compiled standard table.
pub open spec fn standard_rules() -> Seq<Rule> {
    seq![
        literal(0x36, Form::LoadHlFromImm),
        literal(0x0A, Form::LoadAFromPair(Register::BC)),
        literal(0x1A, Form::LoadAFromPair(Register::DE)),
        literal(0x02, Form::LoadPairFromA(Register::BC)),
        literal(0x12, Form::LoadPairFromA(Register::DE)),
        literal(0xFA, Form::LoadAFromAddr),
        literal(0xEA, Form::LoadAddrFromA),
        literal(0xF2, Form::LoadHighAFromC),
        literal(0xE2, Form::LoadHighCFromA),
        literal(0xF0, Form::LoadHighAFromImm),
        literal(0x76, Form::Halt),
        Rule {
            guard: CompiledMask { mask: 0xC7, compare: 0x46 },
            form: Form::LoadRegFromHl { dst: high_field() },
        },
        Rule {
            guard: CompiledMask { mask: 0xF8, compare: 0x70 },
            form: Form::LoadHlFromReg { src: low_field() },
        },
        Rule {
            guard: CompiledMask { mask: 0xC7, compare: 0x06 },
            form: Form::LoadRegImm { dst: high_field() },
        },
        Rule {
            guard: CompiledMask { mask: 0xC0, compare: 0x40 },
            form: Form::LoadRegReg { dst: high_field(), src: low_field() },
        },
    ]
}

proof fn lemma_adjacent_span(t: Seq<char>, lo: int, hi: int)
    requires
        t.len() == 8,
        forall|i: int| 0 <= i < 8 ==> (is_wildcard(#[trigger] t[i]) <==> lo <= i <= hi),
    ensures
        wildcards_adjacent(t),
{
}

/// Compiles a guard template known to have eight characters.
fn guard(pattern: &str) -> (m: CompiledMask)
    requires
        pattern@.len() == 8,
    ensures
        m == compare_of(pattern@),
{
    match compile_compare(pattern) {
        Ok(m) => m,
        Err(_) => CompiledMask { mask: 0, compare: 0 },
    }
}

/// Compiles a field template known to be well formed.
fn field(pattern: &str) -> (f: CompiledField)
    requires
        pattern@.len() == 8,
        wildcards_adjacent(pattern@),
    ensures
        f == field_of(pattern@),
{
    match compile_field(pattern) {
        Ok(f) => f,
        Err(_) => CompiledField { mask: 0, shift: 0 },
    }
}

fn literal_rule(pattern: &str, opcode: u8, form: Form) -> (r: Rule)
    requires
        pattern@.len() == 8,
        compare_of(pattern@) == (CompiledMask { mask: 0xFF, compare: opcode }),
    ensures
        r == literal(opcode, form),
{
    Rule { guard: guard(pattern), form }
}

impl RuleTable {
    /// The standard table, compiled from its templates.
    pub fn standard() -> (t: RuleTable)
        ensures
            t@ == standard_rules(),
    {
        proof {
            reveal_with_fuel(kind_bits, 9);
            reveal_with_fuel(last_wildcard, 9);
            reveal_strlit("00xxx000");
            reveal_strlit("00000xxx");
            lemma_adjacent_span("00xxx000"@, 2, 4);
            lemma_adjacent_span("00000xxx"@, 5, 7);
        }
        let high = field("00xxx000");
        let low = field("00000xxx");
        assert(high == high_field());
        assert(low == low_field());
        let mut rules: Vec<Rule> = Vec::new();
        proof {
            reveal_strlit("00110110");
            reveal_strlit("00001010");
            reveal_strlit("00011010");
            reveal_strlit("00000010");
            reveal_strlit("00010010");
            reveal_strlit("11111010");
            reveal_strlit("11101010");
            reveal_strlit("11110010");
            reveal_strlit("11100010");
            reveal_strlit("11110000");
            reveal_strlit("01110110");
            reveal_strlit("01xxx110");
            reveal_strlit("01110xxx");
            reveal_strlit("00xxx110");
            reveal_strlit("01xxxyyy");
        }
        rules.push(literal_rule("00110110", 0x36, Form::LoadHlFromImm));
        rules.push(literal_rule("00001010", 0x0A, Form::LoadAFromPair(Register::BC)));
        rules.push(literal_rule("00011010", 0x1A, Form::LoadAFromPair(Register::DE)));
        rules.push(literal_rule("00000010", 0x02, Form::LoadPairFromA(Register::BC)));
        rules.push(literal_rule("00010010", 0x12, Form::LoadPairFromA(Register::DE)));
        rules.push(literal_rule("11111010", 0xFA, Form::LoadAFromAddr));
        rules.push(literal_rule("11101010", 0xEA, Form::LoadAddrFromA));
        rules.push(literal_rule("11110010", 0xF2, Form::LoadHighAFromC));
        rules.push(literal_rule("11100010", 0xE2, Form::LoadHighCFromA));
        rules.push(literal_rule("11110000", 0xF0, Form::LoadHighAFromImm));
        rules.push(literal_rule("01110110", 0x76, Form::Halt));
        let g = guard("01xxx110");
        assert(g == (CompiledMask { mask: 0xC7, compare: 0x46 }));
        rules.push(Rule { guard: g, form: Form::LoadRegFromHl { dst: high } });
        let g = guard("01110xxx");
        assert(g == (CompiledMask { mask: 0xF8, compare: 0x70 }));
        rules.push(Rule { guard: g, form: Form::LoadHlFromReg { src: low } });
        let g = guard("00xxx110");
        assert(g == (CompiledMask { mask: 0xC7, compare: 0x06 }));
        rules.push(Rule { guard: g, form: Form::LoadRegImm { dst: high } });
        let g = guard("01xxxyyy");
        assert(g == (CompiledMask { mask: 0xC0, compare: 0x40 }));
        rules.push(Rule { guard: g, form: Form::LoadRegReg { dst: high, src: low } });
        assert(rules@ =~= standard_rules());
        RuleTable::new(rules)
    }
}

/// The standard table decodes every window as the opcode table says.
pub proof fn lemma_standard_table(w: [u8; 3])
    ensures
        first_match(standard_rules(), w) == opcode_table(w),
{
    let x = w[0];
    assert(x & 0xFF == x) by (bit_vector);
    assert((x & 0x07) >> 0 == x & 0x07) by (bit_vector);
    reveal_with_fuel(crate::rules::first_match_from, 16);
}

/// Every window decodes: to an instruction, to `UnknownOpcode` holding that
/// very window, or to `InvalidRegisterIndex` for a register field of 6 or 7.
pub proof fn lemma_decode_total(w: [u8; 3])
    ensures
        opcode_table(w) is Ok || opcode_table(w) == Err::<(Operand, Seq<Arg>), DecodeError>(
            DecodeError::UnknownOpcode(w),
        ) || (opcode_table(w) matches Err(DecodeError::InvalidRegisterIndex(k)) && 6 <= k <= 7),
{
    let x = w[0];
    assert((x & 0x38) >> 3 <= 7) by (bit_vector);
    assert(x & 0x07 <= 7) by (bit_vector);
}

/// Decodes a 3-byte window with the standard table. It compiles the table on
/// each call; a caller that decodes many windows holds `RuleTable::standard()`
/// and calls its `decode`.
pub fn decode(window: [u8; 3]) -> (r: Result<Instruction, DecodeError>)
    ensures
        result_view(r) == opcode_table(window),
{
    let table = RuleTable::standard();
    proof {
        lemma_standard_table(window);
    }
    table.decode(window)
}

} // verus!
