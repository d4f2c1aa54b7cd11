use vstd::prelude::*;

use super::decode_status::DecodeStatus;
use super::inner::utf32;
use super::text_decoder::TextDecoder;
use crate::charset::Utf32;
use crate::encoding::Charset;
use crate::error::CharsetDecodeResult;

verus! {

/// Decodes UTF-32 code units one character at a time.
#[derive(Clone, Copy, Debug, Default, Eq, Hash, PartialEq, Structural)]
pub struct Utf32U32Decoder;

impl TextDecoder<u32> for Utf32U32Decoder {
    open spec fn spec_charset(&self) -> Charset {
        Charset::spec_utf_32()
    }

    open spec fn spec_max_units_per_char(&self) -> usize {
        1
    }

    open spec fn spec_decode_prefix(&self, input: Seq<u32>, index: usize) -> CharsetDecodeResult<
        DecodeStatus,
    > {
        utf32::spec_decode_utf32_units(input, index)
    }

    proof fn lemma_decode_prefix_bounds(&self, input: Seq<u32>, index: usize) {
    }

    fn charset(&self) -> (r: Charset) {
        Charset::utf_32()
    }

    fn max_units_per_char(&self) -> (r: usize) {
        Utf32::MAX_UNITS_PER_CHAR
    }

    fn decode_prefix(&self, input: &[u32], index: usize) -> (r: CharsetDecodeResult<DecodeStatus>) {
        utf32::decode_units_prefix(input, index)
    }
}

} // verus!
