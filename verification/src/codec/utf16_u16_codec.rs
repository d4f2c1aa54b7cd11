use vstd::prelude::*;

use super::charset_codec::CharsetCodec;
use super::decode_status::DecodeStatus;
use super::inner::utf16;
use crate::charset::Utf16;
use crate::encoding::Charset;
use crate::error::{CharsetDecodeResult, CharsetEncodeResult};

verus! {

/// UTF-16 code-unit charset codec.
#[derive(Clone, Copy, Debug, Default, Eq, Hash, PartialEq, Structural)]
pub struct Utf16U16Codec;

impl Utf16U16Codec {
    /// Returns [`Charset::utf_16`].
    pub fn charset(self) -> (r: Charset)
        ensures
            r == Charset::spec_utf_16(),
    {
        Charset::utf_16()
    }

    /// Returns [`Utf16::MAX_UNITS_PER_CHAR`], two code units.
    pub fn max_units_per_char(self) -> (r: usize)
        ensures
            r == 2,
    {
        Utf16::MAX_UNITS_PER_CHAR
    }
}

impl CharsetCodec for Utf16U16Codec {
    type Unit = u16;

    open spec fn spec_charset(&self) -> Charset {
        Charset::spec_utf_16()
    }

    open spec fn spec_max_units_per_char(&self) -> usize {
        2
    }

    open spec fn spec_decode_one(&self, input: Seq<u16>, index: usize) -> CharsetDecodeResult<
        DecodeStatus,
    > {
        utf16::spec_decode_utf16_units(input, index)
    }

    open spec fn spec_encode_one(&self, ch: char, output_len: usize, index: usize) -> CharsetEncodeResult<
        Seq<u16>,
    > {
        utf16::spec_encode_utf16_units(ch, output_len, index)
    }

    proof fn lemma_decode_one_progress(&self, input: Seq<u16>, index: usize) {
    }

    proof fn lemma_encode_one_fits(&self, ch: char, output_len: usize, index: usize) {
    }

    proof fn lemma_encode_one_grows(&self, ch: char, output_len: usize, larger: usize, index: usize) {
        broadcast use crate::error::lemma_encode_error_parts;
    }

    proof fn lemma_decode_one_extends(&self, input: Seq<u16>, more: Seq<u16>, index: usize) {
        broadcast use crate::error::lemma_decode_error_parts;

        let i = index as int;
        assert((input + more)[i] == input[i]);
        if input.len() - index >= 2 {
            assert((input + more)[i + 1] == input[i + 1]);
        }
    }

    proof fn lemma_encode_then_decode(
        &self,
        ch: char,
        output_len: usize,
        index: usize,
        input: Seq<u16>,
        at: usize,
    ) {
        utf16::lemma_utf16_units_encode_then_decode(ch, input, at);
    }

    fn charset(&self) -> (r: Charset) {
        Charset::utf_16()
    }

    fn max_units_per_char(&self) -> (r: usize) {
        Utf16::MAX_UNITS_PER_CHAR
    }

    fn decode_one(&self, input: &[u16], index: usize) -> (r: CharsetDecodeResult<DecodeStatus>) {
        utf16::decode_units_prefix(input, index)
    }

    fn encode_one(&self, ch: char, output: &mut [u16], index: usize) -> (r: CharsetEncodeResult<
        usize,
    >) {
        utf16::encode_units_char(ch, output, index)
    }
}

} // verus!
