use vstd::prelude::*;

use super::charset_codec::CharsetCodec;
use super::decode_status::DecodeStatus;
use super::inner::utf32;
use crate::charset::Utf32;
use crate::encoding::Charset;
use crate::error::{CharsetDecodeResult, CharsetEncodeResult};

verus! {

/// UTF-32 code-unit charset codec.
#[derive(Clone, Copy, Debug, Default, Eq, Hash, PartialEq, Structural)]
pub struct Utf32U32Codec;

impl Utf32U32Codec {
    /// Returns [`Charset::utf_32`].
    pub fn charset(self) -> (r: Charset)
        ensures
            r == Charset::spec_utf_32(),
    {
        Charset::utf_32()
    }

    /// Returns [`Utf32::MAX_UNITS_PER_CHAR`], one code unit.
    pub fn max_units_per_char(self) -> (r: usize)
        ensures
            r == 1,
    {
        Utf32::MAX_UNITS_PER_CHAR
    }
}

impl CharsetCodec for Utf32U32Codec {
    type Unit = u32;

    open spec fn spec_charset(&self) -> Charset {
        Charset::spec_utf_32()
    }

    open spec fn spec_max_units_per_char(&self) -> usize {
        1
    }

    open spec fn spec_decode_one(&self, input: Seq<u32>, index: usize) -> CharsetDecodeResult<
        DecodeStatus,
    > {
        utf32::spec_decode_utf32_units(input, index)
    }

    open spec fn spec_encode_one(&self, ch: char, output_len: usize, index: usize) -> CharsetEncodeResult<
        Seq<u32>,
    > {
        utf32::spec_encode_utf32_units(ch, output_len, index)
    }

    proof fn lemma_decode_one_progress(&self, input: Seq<u32>, index: usize) {
    }

    proof fn lemma_encode_one_fits(&self, ch: char, output_len: usize, index: usize) {
    }

    proof fn lemma_encode_one_grows(&self, ch: char, output_len: usize, larger: usize, index: usize) {
        broadcast use crate::error::lemma_encode_error_parts;
    }

    proof fn lemma_decode_one_extends(&self, input: Seq<u32>, more: Seq<u32>, index: usize) {
        broadcast use crate::error::lemma_decode_error_parts;

        assert((input + more)[index as int] == input[index as int]);
    }

    proof fn lemma_encode_then_decode(
        &self,
        ch: char,
        output_len: usize,
        index: usize,
        input: Seq<u32>,
        at: usize,
    ) {
        assert(input[at as int] == input.subrange(at as int, at + 1)[0]);
        utf32::lemma_utf32_units_encode_then_decode(ch, input, at);
    }

    fn charset(&self) -> (r: Charset) {
        Charset::utf_32()
    }

    fn max_units_per_char(&self) -> (r: usize) {
        Utf32::MAX_UNITS_PER_CHAR
    }

    fn decode_one(&self, input: &[u32], index: usize) -> (r: CharsetDecodeResult<DecodeStatus>) {
        utf32::decode_units_prefix(input, index)
    }

    fn encode_one(&self, ch: char, output: &mut [u32], index: usize) -> (r: CharsetEncodeResult<
        usize,
    >) {
        utf32::encode_units_char(ch, output, index)
    }
}

} // verus!
