use vstd::prelude::*;

verus! {

/// Length of the well-formed UTF-8 sequence that a first byte announces, or `0` when
/// the byte cannot begin a well-formed sequence (a continuation byte, `C0`, `C1`, or
/// `F5..=FF`).
pub open spec fn spec_utf8_sequence_len(byte: u8) -> int {
    if byte <= 0x7f {
        1
    } else if 0xc2 <= byte <= 0xdf {
        2
    } else if 0xe0 <= byte <= 0xef {
        3
    } else if 0xf0 <= byte <= 0xf4 {
        4
    } else {
        0
    }
}

/// Number of UTF-8 bytes used for the code point `value`.
pub open spec fn spec_utf8_width(value: u32) -> int {
    if value <= 0x7f {
        1
    } else if value <= 0x7ff {
        2
    } else if value <= 0xffff {
        3
    } else {
        4
    }
}

/// Namespace for UTF-8 constants and byte classification helpers.
pub struct Utf8;

impl Utf8 {
    /// Maximum number of UTF-8 bytes needed for one Unicode scalar value.
    pub const MAX_UNITS_PER_CHAR: usize = 4;

    /// Maximum number of UTF-8 bytes needed for one Unicode scalar value.
    pub const MAX_BYTES_PER_CHAR: usize = 4;

    /// Tests whether a byte encodes an ASCII scalar value by itself (`0x00..=0x7F`).
    pub fn is_single_byte(byte: u8) -> (r: bool)
        ensures
            r == (byte <= 0x7f),
    {
        byte <= 0x7f
    }

    /// Tests whether a byte can lead a multi-byte UTF-8 sequence (`0xC2..=0xF4`).
    pub fn is_leading_byte(byte: u8) -> (r: bool)
        ensures
            r == (0xc2 <= byte <= 0xf4),
    {
        byte >= 0xc2 && byte <= 0xf4
    }

    /// Tests whether a byte matches the continuation pattern `10xxxxxx`.
    pub fn is_continuation_byte(byte: u8) -> (r: bool)
        ensures
            r == (0x80 <= byte <= 0xbf),
    {
        let masked: u8 = byte & 0xc0;
        assert(masked == 0x80 <==> 0x80 <= byte <= 0xbf) by (bit_vector)
            requires
                masked == byte & 0xc0,
        ;
        masked == 0x80
    }

    /// Returns the complete UTF-8 sequence length implied by a leading byte: `Some(1..=4)`
    /// for ASCII and valid leading bytes, `None` otherwise.
    pub fn byte_len_from_leading_byte(byte: u8) -> (r: Option<usize>)
        ensures
            r == (if spec_utf8_sequence_len(byte) == 0 {
                None::<usize>
            } else {
                Some(spec_utf8_sequence_len(byte) as usize)
            }),
    {
        if byte <= 0x7f {
            Some(1)
        } else if byte >= 0xc2 && byte <= 0xdf {
            Some(2)
        } else if byte >= 0xe0 && byte <= 0xef {
            Some(3)
        } else if byte >= 0xf0 && byte <= 0xf4 {
            Some(4)
        } else {
            None
        }
    }

    /// Returns the number of UTF-8 bytes needed for `ch`: `1`, `2`, `3`, or `4`.
    pub fn byte_len(ch: char) -> (r: usize)
        ensures
            r == spec_utf8_width(ch as u32),
    {
        let code_point: u32 = ch as u32;
        if code_point <= 0x7f {
            1
        } else if code_point <= 0x7ff {
            2
        } else if code_point <= 0xffff {
            3
        } else {
            4
        }
    }
}

} // verus!
