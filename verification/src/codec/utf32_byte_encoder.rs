use vstd::prelude::*;

use super::inner::utf32;
use super::text_encoder::TextEncoder;
use crate::byte_order::ByteOrder;
use crate::charset::Utf32;
use crate::encoding::Charset;
use crate::error::CharsetEncodeResult;

verus! {

/// Encodes characters as UTF-32 bytes of a fixed byte order.
#[derive(Clone, Copy, Debug, Eq, Hash, PartialEq, Structural)]
pub struct Utf32ByteEncoder {
    /// Byte order of each encoded unit.
    byte_order: ByteOrder,
}

impl Utf32ByteEncoder {
    /// The byte order of each encoded unit.
    pub closed spec fn spec_byte_order(self) -> ByteOrder {
        self.byte_order
    }

    /// Creates a value for the given byte order.
    pub fn new(byte_order: ByteOrder) -> (r: Self)
        ensures
            r.spec_byte_order() == byte_order,
    {
        Self { byte_order }
    }

    /// Returns the byte order of each encoded unit.
    pub fn byte_order(self) -> (r: ByteOrder)
        ensures
            r == self.spec_byte_order(),
    {
        self.byte_order
    }
}

impl TextEncoder<u8> for Utf32ByteEncoder {
    open spec fn spec_charset(&self) -> Charset {
        Charset::spec_from_utf32_byte_order(self.spec_byte_order())
    }

    open spec fn spec_max_units_per_char(&self) -> usize {
        4
    }

    open spec fn spec_encode_char(&self, ch: char, output_len: usize, index: usize) -> CharsetEncodeResult<
        Seq<u8>,
    > {
        utf32::spec_encode_utf32_bytes(ch, output_len, self.spec_byte_order(), index)
    }

    fn charset(&self) -> (r: Charset) {
        Charset::from_utf32_byte_order(self.byte_order)
    }

    fn max_units_per_char(&self) -> (r: usize) {
        Utf32::MAX_BYTES_PER_CHAR
    }

    fn encode_char(&self, ch: char, output: &mut [u8], index: usize) -> (r: CharsetEncodeResult<
        usize,
    >) {
        utf32::encode_bytes_char(ch, output, self.byte_order, index)
    }
}

} // verus!
