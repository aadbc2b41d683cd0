//! The bit-template language: an 8-character template per byte, where `'0'`
//! and `'1'` are fixed bits and any other character marks a wildcard bit.
use vstd::prelude::*;
use vstd::arithmetic::power2::{pow2, lemma_pow2_unfold, lemma2_to64};

verus! {

/// Number of characters in a template, one per bit of a byte.
pub const PATTERN_WIDTH: usize = 8;

/// Whether a template character stands for a fixed bit.
pub open spec fn is_fixed(c: char) -> bool {
    c == '0' || c == '1'
}

/// Bit `k` of `x`, counting from 0 at the least significant end.
pub open spec fn bit(x: u8, k: u8) -> bool {
    (x >> k) & 1u8 == 1u8
}

/// The template character that governs bit `k` (the first character is bit 7).
pub open spec fn char_for_bit(t: Seq<char>, k: u8) -> char {
    t[7 - k as int]
}

/// The kinds of template characters that a compiled byte can mark.
pub enum CharKind {
    Fixed,
    One,
    Wildcard,
}

impl CharKind {
    /// Whether a character is of this kind.
    pub open spec fn holds(self, c: char) -> bool {
        match self {
            CharKind::Fixed => is_fixed(c),
            CharKind::One => c == '1',
            CharKind::Wildcard => !is_fixed(c),
        }
    }
}

/// The number whose binary digits, most significant first, mark which of the
/// first `n` characters of `t` are of kind `kind`.
pub open spec fn kind_bits(t: Seq<char>, n: int, kind: CharKind) -> int
    decreases n,
{
    if n <= 0 {
        0
    } else {
        2 * kind_bits(t, n - 1, kind) + if kind.holds(t[n - 1]) {
            1int
        } else {
            0int
        }
    }
}

/// A template compiled for comparison: `mask` marks the fixed bits and
/// `compare` holds their values.
#[derive(Debug, Clone, Copy, PartialEq, Eq, Structural)]
pub struct CompiledMask {
    pub mask: u8,
    pub compare: u8,
}

/// A template compiled for extraction: `mask` marks the wildcard bits and
/// `shift` is the index of the lowest of them.
#[derive(Debug, Clone, Copy, PartialEq, Eq, Structural)]
pub struct CompiledField {
    pub mask: u8,
    pub shift: u8,
}

/// Why a template was refused.
#[derive(Debug, Clone, Copy, PartialEq, Eq, Structural)]
pub enum PatternError {
    /// The template does not have exactly eight characters; holds the count found.
    InvalidPatternLength(usize),
    /// The wildcard bits of an extraction template are not adjacent.
    NonContiguousField,
}

/// What `compile_compare` yields for a template of eight characters.
pub open spec fn compare_of(t: Seq<char>) -> CompiledMask {
    CompiledMask {
        mask: kind_bits(t, 8, CharKind::Fixed) as u8,
        compare: kind_bits(t, 8, CharKind::One) as u8,
    }
}

/// The packed marks of `n` characters fit in `n` bits.
pub proof fn lemma_kind_bits_bound(t: Seq<char>, n: int, kind: CharKind)
    requires
        0 <= n,
    ensures
        0 <= kind_bits(t, n, kind) < pow2(n as nat),
    decreases n,
{
    if n == 0 {
        lemma2_to64();
    } else {
        lemma_kind_bits_bound(t, n - 1, kind);
        lemma_pow2_unfold(n as nat);
    }
}

/// Compiles a template for comparison: the mask marks the `'0'` and `'1'`
/// characters, the compare value holds the `'1'` characters.
pub fn compile_compare(pattern: &str) -> (r: Result<CompiledMask, PatternError>)
    ensures
        match r {
            Ok(m) => pattern@.len() == PATTERN_WIDTH && m == compare_of(pattern@),
            Err(e) => pattern@.len() != PATTERN_WIDTH && e == PatternError::InvalidPatternLength(
                pattern@.len() as usize,
            ),
        },
{
    let len = pattern.unicode_len();
    if len != PATTERN_WIDTH {
        return Err(PatternError::InvalidPatternLength(len));
    }
    let mut mask: u8 = 0;
    let mut compare: u8 = 0;
    let mut i: usize = 0;
    while i < PATTERN_WIDTH
        invariant
            i <= PATTERN_WIDTH,
            pattern@.len() == PATTERN_WIDTH,
            mask == kind_bits(pattern@, i as int, CharKind::Fixed),
            compare == kind_bits(pattern@, i as int, CharKind::One),
        decreases PATTERN_WIDTH - i,
    {
        let c = pattern.get_char(i);
        proof {
            lemma_kind_bits_bound(pattern@, i + 1, CharKind::Fixed);
            lemma_kind_bits_bound(pattern@, i + 1, CharKind::One);
            lemma2_to64();
            assert(pow2((i + 1) as nat) <= 256) by {
                if i + 1 < 8 {
                    lemma_pow2_unfold(8);
                }
            }
        }
        let fixed: u8 = if c == '0' || c == '1' { 1 } else { 0 };
        let one: u8 = if c == '1' { 1 } else { 0 };
        mask = mask * 2 + fixed;
        compare = compare * 2 + one;
        i = i + 1;
    }
    Ok(CompiledMask { mask, compare })
}


/// Whether a template character marks a wildcard bit.
pub open spec fn is_wildcard(c: char) -> bool {
    !is_fixed(c)
}

/// Whether bit `k` of a byte belongs to the wildcard group of `t`.
pub open spec fn group_bit(t: Seq<char>, k: u8) -> bool {
    is_wildcard(char_for_bit(t, k))
}

/// Whether no fixed character stands between two wildcard characters of `t`.
pub open spec fn wildcards_adjacent(t: Seq<char>) -> bool {
    forall|a: int, b: int, c: int|
        #![trigger t[a], t[b], t[c]]
        0 <= a < b < c < t.len() && is_wildcard(t[a]) && is_wildcard(t[c]) ==> is_wildcard(t[b])
}

/// Whether, among the first `n` characters of `t`, a fixed character follows a wildcard.
pub open spec fn fixed_after_wildcard(t: Seq<char>, n: int) -> bool {
    exists|a: int, b: int|
        #![trigger t[a], t[b]]
        0 <= a < b < n && is_wildcard(t[a]) && is_fixed(t[b])
}

/// Index of the last wildcard among the first `n` characters of `t`, or -1.
pub open spec fn last_wildcard(t: Seq<char>, n: int) -> int
    decreases n,
{
    if n <= 0 {
        -1
    } else if is_wildcard(t[n - 1]) {
        n - 1
    } else {
        last_wildcard(t, n - 1)
    }
}

/// What `compile_field` yields for a template of eight characters: the mask
/// marks the wildcards, the shift is the bit index of the last one (0 if none).
pub open spec fn field_of(t: Seq<char>) -> CompiledField {
    CompiledField {
        mask: kind_bits(t, 8, CharKind::Wildcard) as u8,
        shift: if last_wildcard(t, 8) < 0 {
            0u8
        } else {
            (7 - last_wildcard(t, 8)) as u8
        },
    }
}

/// Whether `value` agrees with the compiled template on its fixed bits.
pub open spec fn matches_spec(value: u8, m: CompiledMask) -> bool {
    value & m.mask == m.compare
}

/// The wildcard bits of `value` moved down by the shift; nothing is left of a
/// byte moved by eight places or more.
pub open spec fn extract_spec(value: u8, f: CompiledField) -> u8 {
    if f.shift < 8 {
        (value & f.mask) >> f.shift
    } else {
        0
    }
}

/// Whether every fixed character of `t` equals the bit of `value` that it governs.
pub open spec fn fits(value: u8, t: Seq<char>) -> bool {
    forall|k: u8|
        k < 8 && is_fixed(#[trigger] char_for_bit(t, k)) ==> (bit(value, k) <==> char_for_bit(t, k)
            == '1')
}

proof fn lemma_last_wildcard(t: Seq<char>, n: int)
    requires
        0 <= n <= t.len(),
    ensures
        -1 <= last_wildcard(t, n) < n,
        last_wildcard(t, n) >= 0 ==> is_wildcard(t[last_wildcard(t, n)]),
        forall|j: int| last_wildcard(t, n) < j < n ==> is_fixed(#[trigger] t[j]),
    decreases n,
{
    if n > 0 {
        lemma_last_wildcard(t, n - 1);
    }
}

proof fn lemma_bit_of_double(p: u8, b: u8, y: u8, k: u8)
    requires
        p < 128,
        b < 2,
        y == p * 2 + b,
        1 <= k < 8,
    ensures
        bit(y, 0) == (b == 1),
        bit(y, k) == bit(p, (k - 1) as u8),
{
    assert(bit(y, 0) == (b == 1)) by (bit_vector)
        requires
            p < 128,
            b < 2,
            y == p * 2 + b,
    ;
    assert(bit(y, k) == bit(p, (k - 1) as u8)) by (bit_vector)
        requires
            p < 128,
            b < 2,
            y == p * 2 + b,
            1 <= k < 8,
    ;
}

proof fn lemma_bit_of_zero(k: u8)
    ensures
        !bit(0, k),
{
    assert(!bit(0, k)) by (bit_vector);
}

proof fn lemma_bit_and(a: u8, b: u8, k: u8)
    requires
        k < 8,
    ensures
        bit(a & b, k) == (bit(a, k) && bit(b, k)),
{
    assert(bit(a & b, k) == (bit(a, k) && bit(b, k))) by (bit_vector)
        requires
            k < 8,
    ;
}

proof fn lemma_bit_shr(x: u8, s: u8, k: u8)
    requires
        s < 8,
        k < 8,
    ensures
        bit(x >> s, k) == (k + s < 8 && bit(x, (k + s) as u8)),
{
    assert(bit(x >> s, k) == (k + s < 8 && bit(x, (k + s) as u8))) by (bit_vector)
        requires
            s < 8,
            k < 8,
    ;
}

proof fn lemma_equal_bits(a: u8, b: u8)
    requires
        forall|k: u8| k < 8 ==> bit(a, k) == bit(b, k),
    ensures
        a == b,
{
    assert(bit(a, 0) == bit(b, 0) && bit(a, 1) == bit(b, 1) && bit(a, 2) == bit(b, 2) && bit(a, 3)
        == bit(b, 3));
    assert(bit(a, 4) == bit(b, 4) && bit(a, 5) == bit(b, 5) && bit(a, 6) == bit(b, 6) && bit(a, 7)
        == bit(b, 7));
    assert(a == b) by (bit_vector)
        requires
            bit(a, 0) == bit(b, 0),
            bit(a, 1) == bit(b, 1),
            bit(a, 2) == bit(b, 2),
            bit(a, 3) == bit(b, 3),
            bit(a, 4) == bit(b, 4),
            bit(a, 5) == bit(b, 5),
            bit(a, 6) == bit(b, 6),
            bit(a, 7) == bit(b, 7),
    ;
}

/// Bit `k` of the packed byte marks whether the character `k` places from
/// the end of the first `n` is of the kind.
proof fn lemma_kind_bits_bit(t: Seq<char>, n: int, kind: CharKind, k: u8)
    requires
        0 <= n <= 8,
        n <= t.len(),
        k < 8,
    ensures
        bit(kind_bits(t, n, kind) as u8, k) == (k < n && kind.holds(t[n - 1 - k])),
    decreases n,
{
    lemma_kind_bits_bound(t, n, kind);
    if n == 0 {
        lemma_bit_of_zero(k);
    } else {
        let p = kind_bits(t, n - 1, kind);
        lemma_kind_bits_bound(t, n - 1, kind);
        lemma2_to64();
        assert(pow2((n - 1) as nat) <= 128) by {
            if n - 1 < 7 {
                lemma_pow2_unfold(7);
            }
        }
        let b: u8 = if kind.holds(t[n - 1]) {
            1
        } else {
            0
        };
        lemma_bit_of_double(p as u8, b, kind_bits(t, n, kind) as u8, if k == 0 {
            1
        } else {
            k
        });
        if k > 0 {
            lemma_kind_bits_bit(t, n - 1, kind, (k - 1) as u8);
        }
    }
}

/// The bits of a compiled template, by the characters that govern them: the
/// compare mask marks the fixed characters, the compare value holds the `'1'`
/// characters (0 elsewhere), and the field mask marks the wildcards.
pub proof fn lemma_compiled_bits(t: Seq<char>, k: u8)
    requires
        t.len() == 8,
        k < 8,
    ensures
        bit(compare_of(t).mask, k) == is_fixed(char_for_bit(t, k)),
        bit(compare_of(t).compare, k) == (char_for_bit(t, k) == '1'),
        bit(field_of(t).mask, k) == group_bit(t, k),
{
    lemma_kind_bits_bit(t, 8, CharKind::Fixed, k);
    lemma_kind_bits_bit(t, 8, CharKind::One, k);
    lemma_kind_bits_bit(t, 8, CharKind::Wildcard, k);
}

/// A byte matches a compiled template exactly when each of the template's
/// fixed characters equals the bit of the byte in its position.
pub proof fn lemma_matches_template(t: Seq<char>, value: u8)
    requires
        t.len() == 8,
    ensures
        matches_spec(value, compare_of(t)) <==> fits(value, t),
{
    let m = compare_of(t);
    assert forall|k: u8| k < 8 implies bit(value & m.mask, k) == (bit(value, k) && is_fixed(
        char_for_bit(t, k),
    )) && bit(m.compare, k) == (char_for_bit(t, k) == '1') by {
        lemma_compiled_bits(t, k);
        lemma_bit_and(value, m.mask, k);
    }
    if fits(value, t) {
        assert forall|k: u8| k < 8 implies bit(value & m.mask, k) == bit(m.compare, k) by {
            if is_fixed(char_for_bit(t, k)) {
                assert(bit(value, k) == (char_for_bit(t, k) == '1'));
            }
        }
        lemma_equal_bits(value & m.mask, m.compare);
    }
}

/// Extraction from a template whose wildcards are adjacent: bit `k` of the
/// result is bit `shift + k` of the byte where that bit is in the group and 0
/// elsewhere; the group's bits fill the result from bit 0 up without a gap;
/// and bytes that agree on the group give the same result.
pub proof fn lemma_extract_template(t: Seq<char>, value: u8, other: u8)
    requires
        t.len() == 8,
        wildcards_adjacent(t),
    ensures
        forall|k: u8|
            k < 8 ==> (#[trigger] bit(extract_spec(value, field_of(t)), k) <==> (k + field_of(t).shift
                < 8 && group_bit(t, (k + field_of(t).shift) as u8) && bit(
                value,
                (k + field_of(t).shift) as u8,
            ))),
        forall|j: u8, k: u8|
            #![trigger group_bit(t, (j + field_of(t).shift) as u8), group_bit(t, (k + field_of(t).shift) as u8)]
            j < k && k + field_of(t).shift < 8 && group_bit(t, (k + field_of(t).shift) as u8)
                ==> group_bit(t, (j + field_of(t).shift) as u8),
        (forall|k: u8| k < 8 && group_bit(t, k) ==> bit(value, k) == bit(other, k)) ==> extract_spec(
            value,
            field_of(t),
        ) == extract_spec(other, field_of(t)),
{
    let f = field_of(t);
    lemma_last_wildcard(t, 8);
    let s = f.shift;
    assert(s < 8);
    assert forall|x: u8, k: u8| k < 8 implies (#[trigger] bit(extract_spec(x, f), k) <==> (k + s < 8
        && group_bit(t, (k + s) as u8) && bit(x, (k + s) as u8))) by {
        lemma_bit_shr(x & f.mask, s, k);
        if k + s < 8 {
            lemma_bit_and(x, f.mask, (k + s) as u8);
            lemma_compiled_bits(t, (k + s) as u8);
        }
    }
    assert forall|j: u8, k: u8|
        #![trigger group_bit(t, (j + s) as u8), group_bit(t, (k + s) as u8)]
        j < k && k + s < 8 && group_bit(t, (k + s) as u8) implies group_bit(t, (j + s) as u8) by {
        let lw = last_wildcard(t, 8);
        assert(lw >= 0);
        assert(t[7 - (k + s)] == char_for_bit(t, (k + s) as u8));
        assert(t[7 - (j + s)] == char_for_bit(t, (j + s) as u8));
        if j > 0 {
            assert(is_wildcard(t[7 - (j + s)]));
        }
    }
    if forall|k: u8| k < 8 && group_bit(t, k) ==> bit(value, k) == bit(other, k) {
        assert forall|k: u8| k < 8 implies bit(extract_spec(value, f), k) == bit(
            extract_spec(other, f),
            k,
        ) by {}
        lemma_equal_bits(extract_spec(value, f), extract_spec(other, f));
    }
}

/// Compiles a template for extraction: the mask marks the characters other
/// than `'0'` and `'1'`, and the shift is the bit index of the last of them.
pub fn compile_field(pattern: &str) -> (r: Result<CompiledField, PatternError>)
    ensures
        match r {
            Ok(f) => pattern@.len() == PATTERN_WIDTH && wildcards_adjacent(pattern@) && f == field_of(
                pattern@,
            ),
            Err(PatternError::InvalidPatternLength(n)) => pattern@.len() != PATTERN_WIDTH && n
                == pattern@.len(),
            Err(PatternError::NonContiguousField) => pattern@.len() == PATTERN_WIDTH
                && !wildcards_adjacent(pattern@),
        },
{
    let len = pattern.unicode_len();
    if len != PATTERN_WIDTH {
        return Err(PatternError::InvalidPatternLength(len));
    }
    let ghost t = pattern@;
    let mut mask: u8 = 0;
    let mut seen = false;
    let mut last: usize = 0;
    let mut gap = false;
    let mut i: usize = 0;
    while i < PATTERN_WIDTH
        invariant
            i <= PATTERN_WIDTH,
            t == pattern@,
            t.len() == PATTERN_WIDTH,
            mask == kind_bits(t, i as int, CharKind::Wildcard),
            seen <==> last_wildcard(t, i as int) >= 0,
            seen ==> last == last_wildcard(t, i as int),
            gap <==> fixed_after_wildcard(t, i as int),
            forall|a: int, b: int, c: int|
                #![trigger t[a], t[b], t[c]]
                0 <= a < b < c < i && is_wildcard(t[a]) && is_wildcard(t[c]) ==> is_wildcard(t[b]),
        decreases PATTERN_WIDTH - i,
    {
        let c = pattern.get_char(i);
        proof {
            lemma_kind_bits_bound(t, i + 1, CharKind::Wildcard);
            lemma2_to64();
            assert(pow2((i + 1) as nat) <= 256) by {
                if i + 1 < 8 {
                    lemma_pow2_unfold(8);
                }
            }
            lemma_last_wildcard(t, i as int);
        }
        let wild = !(c == '0' || c == '1');
        if wild {
            if gap {
                proof {
                    let (a, b) = choose|a: int, b: int|
                        #![trigger t[a], t[b]]
                        0 <= a < b < i && is_wildcard(t[a]) && is_fixed(t[b]);
                    assert(t[a] == t[a] && t[b] == t[b] && t[i as int] == c);
                }
                return Err(PatternError::NonContiguousField);
            }
            mask = mask * 2 + 1;
            seen = true;
            last = i;
        } else {
            if seen {
                proof {
                    assert(t[last as int] == t[last as int] && t[i as int] == c);
                }
                gap = true;
            }
            mask = mask * 2;
        }
        i = i + 1;
    }
    proof {
        lemma_last_wildcard(t, 8);
    }
    let shift: u8 = if seen {
        (7 - last) as u8
    } else {
        0
    };
    Ok(CompiledField { mask, shift })
}

/// Tests a byte against a compiled template: `(value & mask) == compare`.
pub fn matches(value: u8, m: CompiledMask) -> (r: bool)
    ensures
        r == matches_spec(value, m),
{
    value & m.mask == m.compare
}

/// Pulls a field out of a byte: `(value & mask) >> shift`.
pub fn extract(value: u8, f: CompiledField) -> (r: u8)
    ensures
        r == extract_spec(value, f),
{
    if f.shift < 8 {
        (value & f.mask) >> f.shift
    } else {
        0
    }
}

/// Compiles a template for comparison and tests a byte against it.
pub fn bitcmp(value: u8, pattern: &str) -> (r: Result<bool, PatternError>)
    ensures
        match r {
            Ok(b) => pattern@.len() == PATTERN_WIDTH && b == matches_spec(value, compare_of(pattern@)),
            Err(e) => pattern@.len() != PATTERN_WIDTH && e == PatternError::InvalidPatternLength(
                pattern@.len() as usize,
            ),
        },
{
    let m = compile_compare(pattern)?;
    Ok(matches(value, m))
}

/// Compiles a template for extraction and pulls its field out of a byte.
pub fn bitcap(value: u8, pattern: &str) -> (r: Result<u8, PatternError>)
    ensures
        match r {
            Ok(v) => pattern@.len() == PATTERN_WIDTH && wildcards_adjacent(pattern@) && v
                == extract_spec(value, field_of(pattern@)),
            Err(PatternError::InvalidPatternLength(n)) => pattern@.len() != PATTERN_WIDTH && n
                == pattern@.len(),
            Err(PatternError::NonContiguousField) => pattern@.len() == PATTERN_WIDTH
                && !wildcards_adjacent(pattern@),
        },
{
    let f = compile_field(pattern)?;
    Ok(extract(value, f))
}

} // verus!
