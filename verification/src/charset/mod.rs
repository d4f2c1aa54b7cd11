mod unicode;
mod utf16;
mod utf32;
mod utf8;

pub use unicode::{is_noncharacter_spec, is_scalar_spec, Unicode};
pub use utf16::{lemma_compose_then_split, lemma_split_then_compose, spec_compose_pair, spec_high_surrogate, spec_low_surrogate, Utf16};
pub use utf32::Utf32;
pub use utf8::{spec_utf8_sequence_len, spec_utf8_width, Utf8};
