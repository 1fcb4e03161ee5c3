//! A Hangeul input-method composition engine: jamo keystrokes in,
//! composed syllable blocks out.

pub mod cluster;
pub mod codec;
pub mod jamo;
pub mod karacter;
pub mod session;
pub mod undo;

pub use jamo::{is_jamo, is_lead, is_punctuation, is_syllable, is_trailing, is_vowel};
pub use codec::{compose, decompose, CodecError};
pub use cluster::{cluster, collapse, combine_trailing, combine_vowels, split_trailing};
pub use session::{InputEvent, Session, COMPOSING_CAPACITY};
pub use karacter::Karacter;
