use vstd::prelude::*;

use super::unicode::is_scalar_spec;
use crate::byte_order::ByteOrder;
use crate::encoding::UnicodeBom;

verus! {

/// Code point represented by the surrogate pair `(high, low)`.
pub open spec fn spec_compose_pair(high: u16, low: u16) -> u32 {
    ((high - 0xd800) * 0x400 + (low - 0xdc00) + 0x10000) as u32
}

/// High surrogate of the supplementary code point `code_point`.
pub open spec fn spec_high_surrogate(code_point: u32) -> u16 {
    ((code_point - 0x10000) / 0x400 + 0xd800) as u16
}

/// Low surrogate of the supplementary code point `code_point`.
pub open spec fn spec_low_surrogate(code_point: u32) -> u16 {
    ((code_point - 0x10000) % 0x400 + 0xdc00) as u16
}

/// Namespace for UTF-16 constants and code-unit classification helpers.
pub struct Utf16;

impl Utf16 {
    /// Maximum number of UTF-16 code units needed for one Unicode scalar value.
    pub const MAX_UNITS_PER_CHAR: usize = 2;

    /// Maximum number of serialized UTF-16 bytes needed for one Unicode scalar value.
    pub const MAX_BYTES_PER_CHAR: usize = 4;

    /// Tests whether a UTF-16 unit is a high surrogate (`0xD800..=0xDBFF`).
    pub fn is_high_surrogate(unit: u16) -> (r: bool)
        ensures
            r == (0xd800 <= unit <= 0xdbff),
    {
        unit >= 0xd800 && unit <= 0xdbff
    }

    /// Tests whether a UTF-16 unit is a low surrogate (`0xDC00..=0xDFFF`).
    pub fn is_low_surrogate(unit: u16) -> (r: bool)
        ensures
            r == (0xdc00 <= unit <= 0xdfff),
    {
        unit >= 0xdc00 && unit <= 0xdfff
    }

    /// Tests whether a UTF-16 unit is any surrogate (`0xD800..=0xDFFF`).
    pub fn is_surrogate(unit: u16) -> (r: bool)
        ensures
            r == (0xd800 <= unit <= 0xdfff),
    {
        unit >= 0xd800 && unit <= 0xdfff
    }

    /// Tests whether a UTF-16 unit encodes a scalar value by itself (is not a surrogate).
    pub fn is_single_unit(unit: u16) -> (r: bool)
        ensures
            r == !(0xd800 <= unit <= 0xdfff),
    {
        !Self::is_surrogate(unit)
    }

    /// Tests whether `high` is a high surrogate and `low` a low surrogate.
    pub fn is_surrogate_pair(high: u16, low: u16) -> (r: bool)
        ensures
            r == (0xd800 <= high <= 0xdbff && 0xdc00 <= low <= 0xdfff),
    {
        Self::is_high_surrogate(high) && Self::is_low_surrogate(low)
    }

    /// Returns the UTF-16 unit count needed for `ch`: `1` in the BMP, `2` above it.
    pub fn unit_len(ch: char) -> (r: usize)
        ensures
            r == (if ch as u32 >= 0x10000 {
                2usize
            } else {
                1usize
            }),
    {
        if (ch as u32) >= 0x10000 {
            2
        } else {
            1
        }
    }

    /// Returns the UTF-16 unit count for a raw code point: `Some(1)` or `Some(2)` for
    /// scalar values and `None` otherwise.
    pub fn unit_len_code_point(code_point: u32) -> (r: Option<usize>)
        ensures
            r == (if !is_scalar_spec(code_point) {
                None::<usize>
            } else if code_point >= 0x10000 {
                Some(2usize)
            } else {
                Some(1usize)
            }),
    {
        if !(code_point <= 0x10ffff && !(code_point >= 0xd800 && code_point <= 0xdfff)) {
            None
        } else if code_point >= 0x10000 {
            Some(2)
        } else {
            Some(1)
        }
    }

    /// Composes a surrogate pair into a code point, or returns `None` when `(high, low)`
    /// is not a surrogate pair.
    pub fn compose_pair(high: u16, low: u16) -> (r: Option<u32>)
        ensures
            r == (if 0xd800 <= high <= 0xdbff && 0xdc00 <= low <= 0xdfff {
                Some(spec_compose_pair(high, low))
            } else {
                None::<u32>
            }),
    {
        if Self::is_surrogate_pair(high, low) {
            let high_payload: u32 = (high as u32) - 0xd800;
            let low_payload: u32 = (low as u32) - 0xdc00;
            Some(high_payload * 0x400 + low_payload + 0x10000)
        } else {
            None
        }
    }

    /// Returns the high surrogate of a supplementary code point, or `None` for other
    /// values.
    pub fn high_surrogate(code_point: u32) -> (r: Option<u16>)
        ensures
            r == (if 0x10000 <= code_point <= 0x10ffff {
                Some(spec_high_surrogate(code_point))
            } else {
                None::<u16>
            }),
    {
        if code_point >= 0x10000 && code_point <= 0x10ffff {
            Some((((code_point - 0x10000) / 0x400) + 0xd800) as u16)
        } else {
            None
        }
    }

    /// Returns the low surrogate of a supplementary code point, or `None` for other
    /// values.
    pub fn low_surrogate(code_point: u32) -> (r: Option<u16>)
        ensures
            r == (if 0x10000 <= code_point <= 0x10ffff {
                Some(spec_low_surrogate(code_point))
            } else {
                None::<u16>
            }),
    {
        if code_point >= 0x10000 && code_point <= 0x10ffff {
            Some((((code_point - 0x10000) % 0x400) + 0xdc00) as u16)
        } else {
            None
        }
    }

    /// Detects a UTF-16 byte order mark at the start of `bytes` and returns its byte
    /// order; `None` when the bytes start with no BOM or with a UTF-8 or UTF-32 BOM.
    pub fn detect_bom(bytes: &[u8]) -> (r: Option<ByteOrder>)
        ensures
            r == (match UnicodeBom::spec_detect(bytes@) {
                Some(UnicodeBom::Utf16BigEndian) => Some(ByteOrder::BigEndian),
                Some(UnicodeBom::Utf16LittleEndian) => Some(ByteOrder::LittleEndian),
                _ => None::<ByteOrder>,
            }),
    {
        match UnicodeBom::detect(bytes) {
            Some(UnicodeBom::Utf16BigEndian) => Some(ByteOrder::BigEndian),
            Some(UnicodeBom::Utf16LittleEndian) => Some(ByteOrder::LittleEndian),
            _ => None,
        }
    }
}

/// Splitting a supplementary code point into surrogates and composing them again gives
/// back the code point; the halves fall in the high and low surrogate ranges.
pub proof fn lemma_split_then_compose(code_point: u32)
    requires
        0x10000 <= code_point <= 0x10ffff,
    ensures
        0xd800 <= spec_high_surrogate(code_point) <= 0xdbff,
        0xdc00 <= spec_low_surrogate(code_point) <= 0xdfff,
        spec_compose_pair(spec_high_surrogate(code_point), spec_low_surrogate(code_point))
            == code_point,
{
}

/// Composing a surrogate pair gives a supplementary code point whose surrogates are that
/// same pair.
pub proof fn lemma_compose_then_split(high: u16, low: u16)
    requires
        0xd800 <= high <= 0xdbff,
        0xdc00 <= low <= 0xdfff,
    ensures
        0x10000 <= spec_compose_pair(high, low) <= 0x10ffff,
        spec_high_surrogate(spec_compose_pair(high, low)) == high,
        spec_low_surrogate(spec_compose_pair(high, low)) == low,
{
}

} // verus!
