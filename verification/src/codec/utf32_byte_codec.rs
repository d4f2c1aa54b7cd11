use vstd::prelude::*;

use super::charset_codec::CharsetCodec;
use super::decode_status::DecodeStatus;
use super::inner::utf32;
use crate::byte_order::ByteOrder;
use crate::charset::Utf32;
use crate::encoding::Charset;
use crate::error::{CharsetDecodeResult, CharsetEncodeResult};

verus! {

/// Byte-serialized UTF-32 charset codec with an explicit byte order. It does not emit,
/// skip, or select a byte order mark.
#[derive(Clone, Copy, Debug, Eq, PartialEq, Structural)]
pub struct Utf32ByteCodec {
    byte_order: ByteOrder,
}

impl Utf32ByteCodec {
    /// The byte order of this codec.
    pub closed spec fn spec_byte_order(self) -> ByteOrder {
        self.byte_order
    }

    /// Creates a codec using `byte_order`.
    pub fn new(byte_order: ByteOrder) -> (r: Self)
        ensures
            r.spec_byte_order() == byte_order,
    {
        Self { byte_order }
    }

    /// Returns the configured byte order.
    pub fn byte_order(self) -> (r: ByteOrder)
        ensures
            r == self.spec_byte_order(),
    {
        self.byte_order
    }

    /// Returns UTF-32LE or UTF-32BE according to the byte order.
    pub fn charset(self) -> (r: Charset)
        ensures
            r == Charset::spec_from_utf32_byte_order(self.spec_byte_order()),
    {
        Charset::from_utf32_byte_order(self.byte_order)
    }

    /// Returns [`Utf32::MAX_BYTES_PER_CHAR`], four bytes.
    pub fn max_units_per_char(self) -> (r: usize)
        ensures
            r == 4,
    {
        Utf32::MAX_BYTES_PER_CHAR
    }
}

impl CharsetCodec for Utf32ByteCodec {
    type Unit = u8;

    open spec fn spec_charset(&self) -> Charset {
        Charset::spec_from_utf32_byte_order(self.spec_byte_order())
    }

    open spec fn spec_max_units_per_char(&self) -> usize {
        4
    }

    open spec fn spec_decode_one(&self, input: Seq<u8>, index: usize) -> CharsetDecodeResult<
        DecodeStatus,
    > {
        utf32::spec_decode_utf32_bytes(input, index, self.spec_byte_order())
    }

    open spec fn spec_encode_one(&self, ch: char, output_len: usize, index: usize) -> CharsetEncodeResult<
        Seq<u8>,
    > {
        utf32::spec_encode_utf32_bytes(ch, output_len, self.spec_byte_order(), index)
    }

    proof fn lemma_decode_one_progress(&self, input: Seq<u8>, index: usize) {
    }

    proof fn lemma_encode_one_fits(&self, ch: char, output_len: usize, index: usize) {
    }

    proof fn lemma_encode_one_grows(&self, ch: char, output_len: usize, larger: usize, index: usize) {
        broadcast use crate::error::lemma_encode_error_parts;
    }

    proof fn lemma_decode_one_extends(&self, input: Seq<u8>, more: Seq<u8>, index: usize) {
        broadcast use crate::error::lemma_decode_error_parts;

        let i = index as int;
        assert((input + more)[i] == input[i]);
        assert((input + more)[i + 1] == input[i + 1]);
        assert((input + more)[i + 2] == input[i + 2]);
        assert((input + more)[i + 3] == input[i + 3]);
    }

    proof fn lemma_encode_then_decode(
        &self,
        ch: char,
        output_len: usize,
        index: usize,
        input: Seq<u8>,
        at: usize,
    ) {
        utf32::lemma_utf32_bytes_encode_then_decode(ch, self.spec_byte_order(), input, at);
    }

    fn charset(&self) -> (r: Charset) {
        Charset::from_utf32_byte_order(self.byte_order)
    }

    fn max_units_per_char(&self) -> (r: usize) {
        Utf32::MAX_BYTES_PER_CHAR
    }

    fn decode_one(&self, input: &[u8], index: usize) -> (r: CharsetDecodeResult<DecodeStatus>) {
        utf32::decode_bytes_prefix(input, index, self.byte_order)
    }

    fn encode_one(&self, ch: char, output: &mut [u8], index: usize) -> (r: CharsetEncodeResult<
        usize,
    >) {
        utf32::encode_bytes_char(ch, output, self.byte_order, index)
    }
}

} // verus!
