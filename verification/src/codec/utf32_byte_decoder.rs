use vstd::prelude::*;

use super::decode_status::DecodeStatus;
use super::inner::utf32;
use super::text_decoder::TextDecoder;
use crate::byte_order::ByteOrder;
use crate::charset::Utf32;
use crate::encoding::Charset;
use crate::error::CharsetDecodeResult;

verus! {

/// Decodes UTF-32 bytes of a fixed byte order one character at a time.
#[derive(Clone, Copy, Debug, Eq, Hash, PartialEq, Structural)]
pub struct Utf32ByteDecoder {
    /// Byte order of each encoded unit.
    byte_order: ByteOrder,
}

impl Utf32ByteDecoder {
    /// The byte order of each encoded unit.
    pub closed spec fn spec_byte_order(self) -> ByteOrder {
        self.byte_order
    }

    /// Creates a value for the given byte order.
    pub fn new(byte_order: ByteOrder) -> (r: Self)
        ensures
            r.spec_byte_order() == byte_order,
    {
        Self { byte_order }
    }

    /// Returns the byte order of each encoded unit.
    pub fn byte_order(self) -> (r: ByteOrder)
        ensures
            r == self.spec_byte_order(),
    {
        self.byte_order
    }
}

impl TextDecoder<u8> for Utf32ByteDecoder {
    open spec fn spec_charset(&self) -> Charset {
        Charset::spec_from_utf32_byte_order(self.spec_byte_order())
    }

    open spec fn spec_max_units_per_char(&self) -> usize {
        4
    }

    open spec fn spec_decode_prefix(&self, input: Seq<u8>, index: usize) -> CharsetDecodeResult<
        DecodeStatus,
    > {
        utf32::spec_decode_utf32_bytes(input, index, self.spec_byte_order())
    }

    proof fn lemma_decode_prefix_bounds(&self, input: Seq<u8>, index: usize) {
    }

    fn charset(&self) -> (r: Charset) {
        Charset::from_utf32_byte_order(self.byte_order)
    }

    fn max_units_per_char(&self) -> (r: usize) {
        Utf32::MAX_BYTES_PER_CHAR
    }

    fn decode_prefix(&self, input: &[u8], index: usize) -> (r: CharsetDecodeResult<DecodeStatus>) {
        utf32::decode_bytes_prefix(input, index, self.byte_order)
    }
}

} // verus!
