//! Classification of code points: syllable blocks, jamo and their
//! positional classes, and punctuation.

use vstd::prelude::*;

verus! {

/// First code point of the composed syllable block range.
pub const SYLLABLE_BASE: u32 = 0xAC00;

/// Last code point of the composed syllable block range.
pub const SYLLABLE_LAST: u32 = 0xD7A3;

/// Whether `c` is a composed syllable block.
pub open spec fn syllable_code(c: char) -> bool {
    SYLLABLE_BASE <= (c as u32) <= SYLLABLE_LAST
}

/// Whether `c` lies in the conjoining jamo block.
pub open spec fn conjoining_jamo_code(c: char) -> bool {
    0x1100 <= (c as u32) <= 0x11FF
}

/// Whether `c` lies in the compatibility jamo block.
pub open spec fn compat_jamo_code(c: char) -> bool {
    0x3131 <= (c as u32) <= 0x318E
}

/// Whether `c` is a jamo of either block.
pub open spec fn jamo_code(c: char) -> bool {
    conjoining_jamo_code(c) || compat_jamo_code(c)
}

/// Whether `c` is a vowel jamo of either block.
pub open spec fn vowel_code(c: char) -> bool {
    0x314F <= (c as u32) <= 0x3163 || 0x1161 <= (c as u32) <= 0x1175
}

/// The index (0..19) of a lead consonant jamo, in either block.
pub open spec fn lead_index(c: char) -> Option<u32> {
    let u = c as u32;
    if 0x1100 <= u <= 0x1112 {
        Some((u - 0x1100) as u32)
    } else {
        match u {
            0x3131 => Some(0u32),
            0x3132 => Some(1u32),
            0x3134 => Some(2u32),
            0x3137 => Some(3u32),
            0x3138 => Some(4u32),
            0x3139 => Some(5u32),
            0x3141 => Some(6u32),
            0x3142 => Some(7u32),
            0x3143 => Some(8u32),
            0x3145 => Some(9u32),
            0x3146 => Some(10u32),
            0x3147 => Some(11u32),
            0x3148 => Some(12u32),
            0x3149 => Some(13u32),
            0x314A => Some(14u32),
            0x314B => Some(15u32),
            0x314C => Some(16u32),
            0x314D => Some(17u32),
            0x314E => Some(18u32),
            _ => None,
        }
    }
}

/// The index (0..21) of a vowel jamo, in either block.
pub open spec fn vowel_index(c: char) -> Option<u32> {
    let u = c as u32;
    if 0x1161 <= u <= 0x1175 {
        Some((u - 0x1161) as u32)
    } else if 0x314F <= u <= 0x3163 {
        Some((u - 0x314F) as u32)
    } else {
        None
    }
}

/// The index (1..28) of a trailing consonant jamo, in either block;
/// index 0 stands for "no trailing consonant" and is never returned.
pub open spec fn trailing_index(c: char) -> Option<u32> {
    let u = c as u32;
    if 0x11A8 <= u <= 0x11C2 {
        Some((u - 0x11A7) as u32)
    } else {
        match u {
            0x3131 => Some(1u32),
            0x3132 => Some(2u32),
            0x3133 => Some(3u32),
            0x3134 => Some(4u32),
            0x3135 => Some(5u32),
            0x3136 => Some(6u32),
            0x3137 => Some(7u32),
            0x3139 => Some(8u32),
            0x313A => Some(9u32),
            0x313B => Some(10u32),
            0x313C => Some(11u32),
            0x313D => Some(12u32),
            0x313E => Some(13u32),
            0x313F => Some(14u32),
            0x3140 => Some(15u32),
            0x3141 => Some(16u32),
            0x3142 => Some(17u32),
            0x3144 => Some(18u32),
            0x3145 => Some(19u32),
            0x3146 => Some(20u32),
            0x3147 => Some(21u32),
            0x3148 => Some(22u32),
            0x314A => Some(23u32),
            0x314B => Some(24u32),
            0x314C => Some(25u32),
            0x314D => Some(26u32),
            0x314E => Some(27u32),
            _ => None,
        }
    }
}

/// Whether `c` is a lead consonant jamo.
pub open spec fn lead_code(c: char) -> bool {
    lead_index(c) is Some
}

/// Whether `c` is a trailing consonant jamo.
pub open spec fn trailing_code(c: char) -> bool {
    trailing_index(c) is Some
}

/// Relies on hangeul::is_jamo: true exactly on the conjoining jamo block.
#[verifier::external_body]
fn hangeul_is_jamo(code: u32) -> (r: bool)
    ensures
        r == (0x1100 <= code <= 0x11FF),
{
    hangeul::is_jamo(code)
}

/// Relies on hangeul::is_compat_jamo: true exactly on the compatibility
/// jamo block.
#[verifier::external_body]
fn hangeul_is_compat_jamo(code: u32) -> (r: bool)
    ensures
        r == (0x3131 <= code <= 0x318E),
{
    hangeul::is_compat_jamo(code)
}

/// Relies on hangeul::is_moeum: true exactly on the vowel ranges of both
/// jamo blocks.
#[verifier::external_body]
fn hangeul_is_moeum(code: u32) -> (r: bool)
    ensures
        r == (0x314F <= code <= 0x3163 || 0x1161 <= code <= 0x1175),
{
    hangeul::is_moeum(code)
}

/// Whether `c` is a jamo (conjoining or compatibility block).
pub fn is_jamo(c: char) -> (r: bool)
    ensures
        r == jamo_code(c),
{
    hangeul_is_jamo(c as u32) || hangeul_is_compat_jamo(c as u32)
}

/// Whether `c` is a vowel jamo.
pub fn is_vowel(c: char) -> (r: bool)
    ensures
        r == vowel_code(c),
{
    hangeul_is_moeum(c as u32)
}

/// Relies on hangeul::is_choseong: a syllable block always has a lead, and
/// a jamo is a lead exactly when it is in the lead table.
#[verifier::external_body]
pub(crate) fn hangeul_is_choseong(c: char) -> (r: bool)
    ensures
        r == (syllable_code(c) || lead_code(c)),
{
    hangeul::is_choseong(c as u32)
}

/// Relies on hangeul::is_jongseong: a syllable block counts when it has a
/// trailing consonant, and a jamo when it is in the trailing table.
#[verifier::external_body]
fn hangeul_is_jongseong(c: char) -> (r: bool)
    ensures
        r == if syllable_code(c) {
            ((c as u32) - SYLLABLE_BASE) % 28 != 0
        } else {
            trailing_code(c)
        },
{
    hangeul::is_jongseong(c as u32)
}

/// Whether `c` is a composed syllable block.
pub fn is_syllable(c: char) -> (r: bool)
    ensures
        r == syllable_code(c),
{
    SYLLABLE_BASE <= (c as u32) && (c as u32) <= SYLLABLE_LAST
}

/// Whether `c` is a lead consonant jamo (a syllable block is not).
pub fn is_lead(c: char) -> (r: bool)
    ensures
        r == lead_code(c),
{
    !is_syllable(c) && hangeul_is_choseong(c)
}

/// Whether `c` is a trailing consonant jamo (a syllable block is not).
pub fn is_trailing(c: char) -> (r: bool)
    ensures
        r == trailing_code(c),
{
    !is_syllable(c) && hangeul_is_jongseong(c)
}

/// The characters that end a composition run: ASCII punctuation and space.
pub open spec fn punctuation_code(c: char) -> bool {
    c == ' ' || ('!' <= c <= '/') || (':' <= c <= '@') || ('[' <= c <= '`') || ('{' <= c <= '~')
}

/// Whether `c` is punctuation or a space.
pub fn is_punctuation(c: char) -> (r: bool)
    ensures
        r == punctuation_code(c),
{
    match c {
        ' ' | '!' | '"' | '#' | '$' | '%' | '&' | '\'' | '(' | ')' | '*' | '+' | ',' | '-'
        | '.' | '/' | ':' | ';' | '<' | '=' | '>' | '?' | '@' | '[' | '\\' | ']' | '^' | '_'
        | '`' | '{' | '|' | '}' | '~' => true,
        _ => false,
    }
}

} // verus!
