use vstd::prelude::*;

use super::decode_status::DecodeStatus;
use super::inner::utf8;
use super::text_decoder::TextDecoder;
use crate::charset::Utf8;
use crate::encoding::Charset;
use crate::error::CharsetDecodeResult;

verus! {

/// Decodes UTF-8 bytes one character at a time.
#[derive(Clone, Copy, Debug, Default, Eq, Hash, PartialEq, Structural)]
pub struct Utf8Decoder;

impl TextDecoder<u8> for Utf8Decoder {
    open spec fn spec_charset(&self) -> Charset {
        Charset::spec_utf_8()
    }

    open spec fn spec_max_units_per_char(&self) -> usize {
        4
    }

    open spec fn spec_decode_prefix(&self, input: Seq<u8>, index: usize) -> CharsetDecodeResult<
        DecodeStatus,
    > {
        utf8::spec_decode_utf8(input, index)
    }

    proof fn lemma_decode_prefix_bounds(&self, input: Seq<u8>, index: usize) {
        reveal_with_fuel(utf8::spec_utf8_first_bad, 5);
    }

    fn charset(&self) -> (r: Charset) {
        Charset::utf_8()
    }

    fn max_units_per_char(&self) -> (r: usize) {
        Utf8::MAX_UNITS_PER_CHAR
    }

    fn decode_prefix(&self, input: &[u8], index: usize) -> (r: CharsetDecodeResult<DecodeStatus>) {
        utf8::decode_prefix(input, index)
    }
}

} // verus!
