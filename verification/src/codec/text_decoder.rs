use vstd::prelude::*;

use super::decode_status::DecodeStatus;
use crate::encoding::Charset;
use crate::error::{CharsetDecodeError, CharsetDecodeErrorKind, CharsetDecodeResult};

verus! {

/// Decodes one character at a time from a text buffer of units `T`.
pub trait TextDecoder<T> {
    /// The charset decoded.
    spec fn spec_charset(&self) -> Charset;

    /// The maximum number of units one character takes.
    spec fn spec_max_units_per_char(&self) -> usize;

    /// What decoding the character that starts at `index` of `input` gives.
    spec fn spec_decode_prefix(&self, input: Seq<T>, index: usize) -> CharsetDecodeResult<
        DecodeStatus,
    >;

    /// Inside the input, a complete character consumes at least one and at most the
    /// available units, and an incomplete one reports at most the available units.
    proof fn lemma_decode_prefix_bounds(&self, input: Seq<T>, index: usize)
        requires
            index <= input.len(),
        ensures
            match self.spec_decode_prefix(input, index) {
                Ok(DecodeStatus::Complete { consumed, .. }) => index < input.len() ==> 1
                    <= consumed && index + consumed <= input.len(),
                Ok(DecodeStatus::NeedMore { available, .. }) => index + available <= input.len(),
                Err(_) => true,
            },
    ;

    /// Returns the charset decoded.
    fn charset(&self) -> (r: Charset)
        ensures
            r == self.spec_charset(),
    ;

    /// Returns the maximum number of units one character takes.
    fn max_units_per_char(&self) -> (r: usize)
        ensures
            r == self.spec_max_units_per_char(),
    ;

    /// Decodes the character that starts at `index` of `input`.
    fn decode_prefix(&self, input: &[T], index: usize) -> (r: CharsetDecodeResult<DecodeStatus>)
        ensures
            r == self.spec_decode_prefix(input@, index),
    ;

    /// Decodes the next character at `*index` and moves `*index` past it.
    ///
    /// Returns `None` at the end of the input. A sequence cut short by the end of the
    /// input is an incomplete-sequence error located after its available units; an
    /// index past the end is a malformed-sequence error.
    fn decode_next(&self, input: &[T], index: &mut usize) -> (r: CharsetDecodeResult<
        Option<char>,
    >)
        ensures
            *old(index) > input@.len() ==> r == Err::<Option<char>, CharsetDecodeError>(
                CharsetDecodeError::spec_malformed_sequence(self.spec_charset(), *old(index)),
            ) && *final(index) == *old(index),
            *old(index) == input@.len() ==> r == Ok::<Option<char>, CharsetDecodeError>(None)
                && *final(index) == *old(index),
            *old(index) < input@.len() ==> match self.spec_decode_prefix(input@, *old(index)) {
                Ok(DecodeStatus::Complete { value, consumed }) => r == Ok::<
                    Option<char>,
                    CharsetDecodeError,
                >(Some(value)) && *final(index) == *old(index) + consumed,
                Ok(DecodeStatus::NeedMore { required, available }) => r == Err::<
                    Option<char>,
                    CharsetDecodeError,
                >(
                    CharsetDecodeError::spec_new(
                        self.spec_charset(),
                        CharsetDecodeErrorKind::IncompleteSequence {
                            required: required.saturating_sub(*old(index)),
                            available,
                        },
                        (*old(index) + available) as usize,
                    ),
                ) && *final(index) == *old(index),
                Err(e) => r == Err::<Option<char>, CharsetDecodeError>(e) && *final(index) == *old(
                    index,
                ),
            },
    {
        if *index > input.len() {
            return Err(CharsetDecodeError::malformed_sequence(self.charset(), *index));
        }
        if *index == input.len() {
            return Ok(None);
        }
        proof {
            self.lemma_decode_prefix_bounds(input@, *index);
        }
        match self.decode_prefix(input, *index) {
            Ok(DecodeStatus::Complete { value, consumed }) => {
                *index = *index + consumed;
                Ok(Some(value))
            },
            Ok(DecodeStatus::NeedMore { required, available }) => {
                let kind = CharsetDecodeErrorKind::IncompleteSequence {
                    required: required.saturating_sub(*index),
                    available,
                };
                Err(CharsetDecodeError::new(self.charset(), kind, *index + available))
            },
            Err(error) => Err(error),
        }
    }
}

} // verus!
