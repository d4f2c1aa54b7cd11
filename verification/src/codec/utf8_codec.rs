use vstd::prelude::*;

use super::charset_codec::CharsetCodec;
use super::decode_status::DecodeStatus;
use super::inner::utf8;
use super::text_decoder::TextDecoder;
use super::text_encoder::TextEncoder;
use crate::charset::Utf8;
use crate::encoding::Charset;
use crate::error::{CharsetDecodeResult, CharsetEncodeResult};

verus! {

/// UTF-8 byte-buffer charset codec.
#[derive(Clone, Copy, Debug, Default, Eq, Hash, PartialEq, Structural)]
pub struct Utf8Codec;

impl Utf8Codec {
    /// Returns [`Charset::utf_8`].
    pub fn charset(self) -> (r: Charset)
        ensures
            r == Charset::spec_utf_8(),
    {
        Charset::utf_8()
    }

    /// Returns [`Utf8::MAX_UNITS_PER_CHAR`], four bytes.
    pub fn max_units_per_char(self) -> (r: usize)
        ensures
            r == 4,
    {
        Utf8::MAX_UNITS_PER_CHAR
    }
}

impl CharsetCodec for Utf8Codec {
    type Unit = u8;

    open spec fn spec_charset(&self) -> Charset {
        Charset::spec_utf_8()
    }

    open spec fn spec_max_units_per_char(&self) -> usize {
        4
    }

    open spec fn spec_decode_one(&self, input: Seq<u8>, index: usize) -> CharsetDecodeResult<
        DecodeStatus,
    > {
        utf8::spec_decode_utf8(input, index)
    }

    open spec fn spec_encode_one(&self, ch: char, output_len: usize, index: usize) -> CharsetEncodeResult<
        Seq<u8>,
    > {
        utf8::spec_encode_utf8(ch, output_len, index)
    }

    proof fn lemma_decode_one_progress(&self, input: Seq<u8>, index: usize) {
        reveal_with_fuel(utf8::spec_utf8_first_bad, 5);
    }

    proof fn lemma_encode_one_fits(&self, ch: char, output_len: usize, index: usize) {
        utf8::lemma_encode_scalar_len(ch);
    }

    proof fn lemma_encode_one_grows(&self, ch: char, output_len: usize, larger: usize, index: usize) {
        broadcast use crate::error::lemma_encode_error_parts;
    }

    proof fn lemma_decode_one_extends(&self, input: Seq<u8>, more: Seq<u8>, index: usize) {
        utf8::lemma_utf8_decode_extends(input, more, index);
    }

    proof fn lemma_encode_then_decode(
        &self,
        ch: char,
        output_len: usize,
        index: usize,
        input: Seq<u8>,
        at: usize,
    ) {
        utf8::lemma_encode_scalar_len(ch);
        utf8::lemma_utf8_encode_then_decode(ch, input, at);
    }

    fn charset(&self) -> (r: Charset) {
        Charset::utf_8()
    }

    fn max_units_per_char(&self) -> (r: usize) {
        Utf8::MAX_UNITS_PER_CHAR
    }

    fn decode_one(&self, input: &[u8], index: usize) -> (r: CharsetDecodeResult<DecodeStatus>) {
        utf8::decode_prefix(input, index)
    }

    fn encode_one(&self, ch: char, output: &mut [u8], index: usize) -> (r: CharsetEncodeResult<
        usize,
    >) {
        utf8::encode_char(ch, output, index)
    }
}

impl TextDecoder<u8> for Utf8Codec {
    open spec fn spec_charset(&self) -> Charset {
        Charset::spec_utf_8()
    }

    open spec fn spec_max_units_per_char(&self) -> usize {
        4
    }

    open spec fn spec_decode_prefix(&self, input: Seq<u8>, index: usize) -> CharsetDecodeResult<
        DecodeStatus,
    > {
        utf8::spec_decode_utf8(input, index)
    }

    proof fn lemma_decode_prefix_bounds(&self, input: Seq<u8>, index: usize) {
        reveal_with_fuel(utf8::spec_utf8_first_bad, 5);
    }

    fn charset(&self) -> (r: Charset) {
        Charset::utf_8()
    }

    fn max_units_per_char(&self) -> (r: usize) {
        Utf8::MAX_UNITS_PER_CHAR
    }

    fn decode_prefix(&self, input: &[u8], index: usize) -> (r: CharsetDecodeResult<DecodeStatus>) {
        utf8::decode_prefix(input, index)
    }
}

impl TextEncoder<u8> for Utf8Codec {
    open spec fn spec_charset(&self) -> Charset {
        Charset::spec_utf_8()
    }

    open spec fn spec_max_units_per_char(&self) -> usize {
        4
    }

    open spec fn spec_encode_char(&self, ch: char, output_len: usize, index: usize) -> CharsetEncodeResult<
        Seq<u8>,
    > {
        utf8::spec_encode_utf8(ch, output_len, index)
    }

    fn charset(&self) -> (r: Charset) {
        Charset::utf_8()
    }

    fn max_units_per_char(&self) -> (r: usize) {
        Utf8::MAX_UNITS_PER_CHAR
    }

    fn encode_char(&self, ch: char, output: &mut [u8], index: usize) -> (r: CharsetEncodeResult<
        usize,
    >) {
        utf8::encode_char(ch, output, index)
    }
}

} // verus!
