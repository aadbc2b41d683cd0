use opdecode::{
    bitcap, bitcmp, compile_compare, compile_field, extract, CompiledField, CompiledMask,
    PatternError,
};

#[test]
fn compare_template_compiles_to_mask_and_value() {
    assert_eq!(compile_compare("01xxxyyy"), Ok(CompiledMask { mask: 0xC0, compare: 0x40 }));
    assert_eq!(compile_compare("00xxx110"), Ok(CompiledMask { mask: 0xC7, compare: 0x06 }));
    assert_eq!(compile_compare("00110110"), Ok(CompiledMask { mask: 0xFF, compare: 0x36 }));
    assert_eq!(compile_compare("abcdefgh"), Ok(CompiledMask { mask: 0x00, compare: 0x00 }));
}

#[test]
fn field_template_compiles_to_mask_and_shift() {
    assert_eq!(compile_field("00xxx000"), Ok(CompiledField { mask: 0x38, shift: 3 }));
    assert_eq!(compile_field("00000yyy"), Ok(CompiledField { mask: 0x07, shift: 0 }));
    assert_eq!(compile_field("rr000000"), Ok(CompiledField { mask: 0xC0, shift: 6 }));
    assert_eq!(compile_field("01011010"), Ok(CompiledField { mask: 0x00, shift: 0 }));
}

#[test]
fn wrong_length_is_refused() {
    assert_eq!(compile_compare("0101"), Err(PatternError::InvalidPatternLength(4)));
    assert_eq!(compile_compare("010101010"), Err(PatternError::InvalidPatternLength(9)));
    assert_eq!(compile_compare(""), Err(PatternError::InvalidPatternLength(0)));
    assert_eq!(compile_field("0x"), Err(PatternError::InvalidPatternLength(2)));
    assert_eq!(bitcmp(0, "0000000"), Err(PatternError::InvalidPatternLength(7)));
    assert_eq!(bitcap(0, "xxxxxxxxx"), Err(PatternError::InvalidPatternLength(9)));
}

#[test]
fn length_counts_characters_not_bytes() {
    assert_eq!(compile_compare("0101ééé1"), Ok(CompiledMask { mask: 0xF1, compare: 0x51 }));
}

#[test]
fn split_field_is_refused() {
    assert_eq!(compile_field("0x0x0000"), Err(PatternError::NonContiguousField));
    assert_eq!(compile_field("x000000x"), Err(PatternError::NonContiguousField));
    assert_eq!(bitcap(0xFF, "xx0xx000"), Err(PatternError::NonContiguousField));
}

#[test]
fn match_checks_fixed_bits_only() {
    let m = compile_compare("01xxx110").unwrap();
    for v in 0u8..=255 {
        let expected = (v >> 7) & 1 == 0 && (v >> 6) & 1 == 1 && (v >> 2) & 1 == 1 && (v >> 1) & 1 == 1 && v & 1 == 0;
        assert_eq!(opdecode::pattern::matches(v, m), expected);
        assert_eq!(bitcmp(v, "01xxx110"), Ok(expected));
    }
    assert_eq!(bitcmp(0x46, "01xxx110"), Ok(true));
    assert_eq!(bitcmp(0x47, "01xxx110"), Ok(false));
}

#[test]
fn extract_right_justifies_the_group() {
    let f = compile_field("00xxx000").unwrap();
    assert_eq!(extract(0b0010_1000, f), 0b101);
    assert_eq!(extract(0b1110_1111, f), 0b101);
    assert_eq!(extract(0xFF, f), 7);
    assert_eq!(bitcap(0x78, "00xxx000"), Ok(7));
    assert_eq!(bitcap(0x41, "00000yyy"), Ok(1));
    for v in 0u8..=255 {
        assert_eq!(extract(v, f), (v >> 3) & 0b111);
        assert_eq!(bitcap(v, "rr000000"), Ok(v >> 6));
    }
}

#[test]
fn extract_with_large_shift_is_zero() {
    assert_eq!(extract(0xFF, CompiledField { mask: 0xFF, shift: 8 }), 0);
}
