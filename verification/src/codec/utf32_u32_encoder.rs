use vstd::prelude::*;

use super::inner::utf32;
use super::text_encoder::TextEncoder;
use crate::charset::Utf32;
use crate::encoding::Charset;
use crate::error::CharsetEncodeResult;

verus! {

/// Encodes characters as UTF-32 code units.
#[derive(Clone, Copy, Debug, Default, Eq, Hash, PartialEq, Structural)]
pub struct Utf32U32Encoder;

impl TextEncoder<u32> for Utf32U32Encoder {
    open spec fn spec_charset(&self) -> Charset {
        Charset::spec_utf_32()
    }

    open spec fn spec_max_units_per_char(&self) -> usize {
        1
    }

    open spec fn spec_encode_char(&self, ch: char, output_len: usize, index: usize) -> CharsetEncodeResult<
        Seq<u32>,
    > {
        utf32::spec_encode_utf32_units(ch, output_len, index)
    }

    fn charset(&self) -> (r: Charset) {
        Charset::utf_32()
    }

    fn max_units_per_char(&self) -> (r: usize) {
        Utf32::MAX_UNITS_PER_CHAR
    }

    fn encode_char(&self, ch: char, output: &mut [u32], index: usize) -> (r: CharsetEncodeResult<
        usize,
    >) {
        utf32::encode_units_char(ch, output, index)
    }
}

} // verus!
