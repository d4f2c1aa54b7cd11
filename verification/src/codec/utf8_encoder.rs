use vstd::prelude::*;

use super::inner::utf8;
use super::text_encoder::TextEncoder;
use crate::charset::Utf8;
use crate::encoding::Charset;
use crate::error::CharsetEncodeResult;

verus! {

/// Encodes characters as UTF-8 bytes.
#[derive(Clone, Copy, Debug, Default, Eq, Hash, PartialEq, Structural)]
pub struct Utf8Encoder;

impl TextEncoder<u8> for Utf8Encoder {
    open spec fn spec_charset(&self) -> Charset {
        Charset::spec_utf_8()
    }

    open spec fn spec_max_units_per_char(&self) -> usize {
        4
    }

    open spec fn spec_encode_char(&self, ch: char, output_len: usize, index: usize) -> CharsetEncodeResult<
        Seq<u8>,
    > {
        utf8::spec_encode_utf8(ch, output_len, index)
    }

    fn charset(&self) -> (r: Charset) {
        Charset::utf_8()
    }

    fn max_units_per_char(&self) -> (r: usize) {
        Utf8::MAX_UNITS_PER_CHAR
    }

    fn encode_char(&self, ch: char, output: &mut [u8], index: usize) -> (r: CharsetEncodeResult<
        usize,
    >) {
        utf8::encode_char(ch, output, index)
    }
}

} // verus!
