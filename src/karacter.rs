//! A small window over a character stream that remembers the first lead
//! consonant it sees.

use vstd::prelude::*;
use crate::jamo::{hangeul_is_choseong, lead_code, syllable_code};

verus! {

/// A window of up to three stream characters, with room for the lead,
/// vowel and trailing parts read from them.
#[derive(Debug)]
pub struct Karacter {
    first: Option<char>,
    second: Option<char>,
    third: Option<char>,
    choseong: Option<char>,
    jungseong: Option<char>,
    jongseong: Option<char>,
}

impl View for Karacter {
    /// (first, second, third, lead, vowel, trailing).
    type V = (Option<char>, Option<char>, Option<char>, Option<char>, Option<char>, Option<char>);

    closed spec fn view(&self) -> Self::V {
        (self.first, self.second, self.third, self.choseong, self.jungseong, self.jongseong)
    }
}

impl Karacter {
    /// An empty window.
    pub fn new() -> (r: Karacter)
        ensures
            r@ == (None::<char>, None::<char>, None::<char>, None::<char>, None::<char>, None::<char>),
    {
        Karacter {
            first: None,
            second: None,
            third: None,
            choseong: None,
            jungseong: None,
            jongseong: None,
        }
    }

    /// Feeds one character. While the window is empty the character is
    /// handed back, and kept as the first one when it has a lead consonant
    /// (a lead jamo or any syllable block); once the window holds a
    /// character, nothing comes back.
    pub fn process_char(&mut self, c: char) -> (r: Option<char>)
        ensures
            r == if old(self)@.0 is None {
                Some(c)
            } else {
                None::<char>
            },
            final(self)@ == if old(self)@.0 is None && (syllable_code(c) || lead_code(c)) {
                (Some(c), old(self)@.1, old(self)@.2, old(self)@.3, old(self)@.4, old(self)@.5)
            } else {
                old(self)@
            },
    {
        if self.first.is_none() {
            if hangeul_is_choseong(c) {
                self.first = Some(c);
            }
            Some(c)
        } else {
            None
        }
    }
}

} // verus!
