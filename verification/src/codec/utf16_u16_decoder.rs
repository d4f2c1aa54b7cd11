use vstd::prelude::*;

use super::decode_status::DecodeStatus;
use super::inner::utf16;
use super::text_decoder::TextDecoder;
use crate::charset::Utf16;
use crate::encoding::Charset;
use crate::error::CharsetDecodeResult;

verus! {

/// Decodes UTF-16 code units one character at a time.
#[derive(Clone, Copy, Debug, Default, Eq, Hash, PartialEq, Structural)]
pub struct Utf16U16Decoder;

impl TextDecoder<u16> for Utf16U16Decoder {
    open spec fn spec_charset(&self) -> Charset {
        Charset::spec_utf_16()
    }

    open spec fn spec_max_units_per_char(&self) -> usize {
        2
    }

    open spec fn spec_decode_prefix(&self, input: Seq<u16>, index: usize) -> CharsetDecodeResult<
        DecodeStatus,
    > {
        utf16::spec_decode_utf16_units(input, index)
    }

    proof fn lemma_decode_prefix_bounds(&self, input: Seq<u16>, index: usize) {
    }

    fn charset(&self) -> (r: Charset) {
        Charset::utf_16()
    }

    fn max_units_per_char(&self) -> (r: usize) {
        Utf16::MAX_UNITS_PER_CHAR
    }

    fn decode_prefix(&self, input: &[u16], index: usize) -> (r: CharsetDecodeResult<DecodeStatus>) {
        utf16::decode_units_prefix(input, index)
    }
}

} // verus!
