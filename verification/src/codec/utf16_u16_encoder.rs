use vstd::prelude::*;

use super::inner::utf16;
use super::text_encoder::TextEncoder;
use crate::charset::Utf16;
use crate::encoding::Charset;
use crate::error::CharsetEncodeResult;

verus! {

/// Encodes characters as UTF-16 code units.
#[derive(Clone, Copy, Debug, Default, Eq, Hash, PartialEq, Structural)]
pub struct Utf16U16Encoder;

impl TextEncoder<u16> for Utf16U16Encoder {
    open spec fn spec_charset(&self) -> Charset {
        Charset::spec_utf_16()
    }

    open spec fn spec_max_units_per_char(&self) -> usize {
        2
    }

    open spec fn spec_encode_char(&self, ch: char, output_len: usize, index: usize) -> CharsetEncodeResult<
        Seq<u16>,
    > {
        utf16::spec_encode_utf16_units(ch, output_len, index)
    }

    fn charset(&self) -> (r: Charset) {
        Charset::utf_16()
    }

    fn max_units_per_char(&self) -> (r: usize) {
        Utf16::MAX_UNITS_PER_CHAR
    }

    fn encode_char(&self, ch: char, output: &mut [u16], index: usize) -> (r: CharsetEncodeResult<
        usize,
    >) {
        utf16::encode_units_char(ch, output, index)
    }
}

} // verus!
