//! The syllable codec: a composed syllable block is
//! `BASE + lead * 588 + vowel * 28 + trailing`, with trailing index 0 for
//! "no trailing consonant".

use vstd::prelude::*;
use crate::jamo::{
    is_lead, is_trailing, is_vowel, lead_code, lead_index, syllable_code, trailing_code,
    trailing_index, vowel_index, SYLLABLE_BASE,
};

verus! {

/// The lead consonant (compatibility jamo) with index `i`.
pub open spec fn lead_char(i: u32) -> char {
    match i {
        0 => 'ㄱ',
        1 => 'ㄲ',
        2 => 'ㄴ',
        3 => 'ㄷ',
        4 => 'ㄸ',
        5 => 'ㄹ',
        6 => 'ㅁ',
        7 => 'ㅂ',
        8 => 'ㅃ',
        9 => 'ㅅ',
        10 => 'ㅆ',
        11 => 'ㅇ',
        12 => 'ㅈ',
        13 => 'ㅉ',
        14 => 'ㅊ',
        15 => 'ㅋ',
        16 => 'ㅌ',
        17 => 'ㅍ',
        _ => 'ㅎ',
    }
}

/// The vowel (compatibility jamo) with index `i`.
pub open spec fn vowel_char(i: u32) -> char {
    (0x314F + i) as char
}

/// The trailing consonant (compatibility jamo) with index `i` (1..28).
pub open spec fn trailing_char(i: u32) -> char {
    match i {
        1 => 'ㄱ',
        2 => 'ㄲ',
        3 => 'ㄳ',
        4 => 'ㄴ',
        5 => 'ㄵ',
        6 => 'ㄶ',
        7 => 'ㄷ',
        8 => 'ㄹ',
        9 => 'ㄺ',
        10 => 'ㄻ',
        11 => 'ㄼ',
        12 => 'ㄽ',
        13 => 'ㄾ',
        14 => 'ㄿ',
        15 => 'ㅀ',
        16 => 'ㅁ',
        17 => 'ㅂ',
        18 => 'ㅄ',
        19 => 'ㅅ',
        20 => 'ㅆ',
        21 => 'ㅇ',
        22 => 'ㅈ',
        23 => 'ㅊ',
        24 => 'ㅋ',
        25 => 'ㅌ',
        26 => 'ㅍ',
        _ => 'ㅎ',
    }
}

/// Offset of a syllable block from the start of the range.
pub open spec fn offset(s: char) -> u32 {
    ((s as u32) - SYLLABLE_BASE) as u32
}

/// The (lead, vowel, optional trailing) parts of a syllable block, as
/// compatibility jamo.
pub open spec fn syllable_parts(s: char) -> (char, char, Option<char>) {
    let o = offset(s);
    (
        lead_char(o / 588),
        vowel_char((o % 588) / 28),
        if o % 28 == 0 {
            None
        } else {
            Some(trailing_char(o % 28))
        },
    )
}

/// Whether `s` is a syllable block with a trailing consonant.
pub open spec fn has_trailing(s: char) -> bool {
    syllable_code(s) && syllable_parts(s).2 is Some
}

/// The syllable block of the given parts, if each is a member of its class.
pub open spec fn compose_spec(l: char, v: char, t: Option<char>) -> Option<char> {
    if lead_code(l) && vowel_index(v) is Some && (t is None || trailing_code(t->Some_0)) {
        let ti: u32 = match t {
            Some(tc) => trailing_index(tc)->Some_0,
            None => 0,
        };
        Some((SYLLABLE_BASE + lead_index(l)->Some_0 * 588 + vowel_index(v)->Some_0 * 28 + ti) as char)
    } else {
        None
    }
}

/// Why a codec call did not apply.
#[derive(Debug, Clone, Copy, PartialEq, Eq, Structural)]
pub enum CodecError {
    /// The code point is not a composed syllable block.
    NotASyllable,
    /// A part is not a member of its jamo class.
    InvalidJamo,
}

#[verifier::external_type_specification]
#[verifier::external_body]
pub struct ExHangeulError(hangeul::errors::HangeulError);

/// Relies on hangeul::decompose_char: for a syllable block, the
/// compatibility jamo of its lead, vowel and trailing indices; for any other
/// code point an error (no jamo is both a lead and a vowel).
#[verifier::external_body]
fn hangeul_decompose_char(c: char) -> (r: Result<(char, char, Option<char>), hangeul::errors::HangeulError>)
    ensures
        r is Ok == syllable_code(c),
        r matches Ok(p) ==> p == syllable_parts(c),
{
    hangeul::decompose_char(&c)
}

/// Relies on hangeul::compose_char, on jamo (not syllable blocks): it
/// succeeds when the lead and vowel are in their tables, and adds their
/// indices to the base, with the trailing index or 0 when the trailing part
/// is absent or not in its table.
#[verifier::external_body]
fn hangeul_compose_char(l: char, v: char, t: Option<char>) -> (r: Result<char, hangeul::errors::HangeulError>)
    requires
        !syllable_code(l),
        !syllable_code(v),
        t matches Some(tc) ==> !syllable_code(tc),
    ensures
        r is Ok == (lead_code(l) && vowel_index(v) is Some),
        r matches Ok(s) ==> s as u32 == SYLLABLE_BASE + lead_index(l)->Some_0 * 588
            + vowel_index(v)->Some_0 * 28 + match t {
            Some(tc) => match trailing_index(tc) {
                Some(ti) => ti,
                None => 0u32,
            },
            None => 0u32,
        },
{
    hangeul::compose_char(&l, &v, t.as_ref())
}

/// A character is the character of its own code point.
proof fn lemma_char_code(c: char)
    ensures
        (c as u32) as char == c,
{
}

/// Each lead index below 19 names a lead jamo whose index it is.
proof fn lemma_lead_table(i: u32)
    requires
        i < 19,
    ensures
        lead_index(lead_char(i)) == Some(i),
{
}

/// Each vowel index below 21 names a vowel jamo whose index it is.
proof fn lemma_vowel_table(i: u32)
    requires
        i < 21,
    ensures
        vowel_index(vowel_char(i)) == Some(i),
        !syllable_code(vowel_char(i)),
{
}

/// Each trailing index in 1..28 names a trailing jamo whose index it is.
proof fn lemma_trailing_table(i: u32)
    requires
        1 <= i < 28,
    ensures
        trailing_index(trailing_char(i)) == Some(i),
{
}

/// The parts of a syllable block are jamo of their classes, and composing
/// them gives the block back.
pub proof fn lemma_round_trip(s: char)
    requires
        syllable_code(s),
    ensures
        lead_code(syllable_parts(s).0),
        vowel_index(syllable_parts(s).1) is Some,
        syllable_parts(s).2 matches Some(t) ==> trailing_code(t),
        compose_spec(syllable_parts(s).0, syllable_parts(s).1, syllable_parts(s).2) == Some(s),
{
    let o = offset(s);
    let li = o / 588;
    let vi = (o % 588) / 28;
    let ti = o % 28;
    assert(o <= 11171);
    assert(li < 19);
    assert(vi < 21);
    lemma_lead_table(li);
    lemma_vowel_table(vi);
    if ti != 0 {
        lemma_trailing_table(ti);
    }
    assert(o == li * 588 + vi * 28 + ti) by (nonlinear_arith)
        requires
            li == o / 588,
            vi == (o % 588) / 28,
            ti == o % 28,
    ;
    lemma_char_code(s);
}

/// Splits a syllable block into its lead, vowel and optional trailing
/// consonant.
pub fn decompose(c: char) -> (r: Result<(char, char, Option<char>), CodecError>)
    ensures
        match r {
            Ok(p) => syllable_code(c) && p == syllable_parts(c),
            Err(e) => !syllable_code(c) && e == CodecError::NotASyllable,
        },
{
    match hangeul_decompose_char(c) {
        Ok(p) => Ok(p),
        Err(_) => Err(CodecError::NotASyllable),
    }
}

/// Builds the syllable block of a lead, a vowel and an optional trailing
/// consonant.
pub fn compose(l: char, v: char, t: Option<char>) -> (r: Result<char, CodecError>)
    ensures
        match r {
            Ok(s) => compose_spec(l, v, t) == Some(s),
            Err(e) => compose_spec(l, v, t) is None && e == CodecError::InvalidJamo,
        },
{
    if !is_lead(l) || !is_vowel(v) {
        return Err(CodecError::InvalidJamo);
    }
    if let Some(tc) = t {
        if !is_trailing(tc) {
            return Err(CodecError::InvalidJamo);
        }
    }
    match hangeul_compose_char(l, v, t) {
        Ok(s) => {
            proof {
                lemma_char_code(s);
            }
            Ok(s)
        },
        Err(_) => Err(CodecError::InvalidJamo),
    }
}

} // verus!
