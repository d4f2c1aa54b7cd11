use vstd::prelude::*;

verus! {

/// True when `value` is a Unicode scalar value: a code point in `0..=0x10FFFF` that is
/// not a UTF-16 surrogate.
pub open spec fn is_scalar_spec(value: u32) -> bool {
    value <= 0x10ffff && !(0xd800 <= value <= 0xdfff)
}

/// True when `value` is a Unicode noncharacter: `U+FDD0..=U+FDEF`, or a code point whose
/// low sixteen bits are `FFFE` or `FFFF`.
pub open spec fn is_noncharacter_spec(value: u32) -> bool {
    value <= 0x10ffff && ((0xfdd0 <= value <= 0xfdef) || value % 0x10000 >= 0xfffe)
}

/// Converts a `u32` into a `char`.
///
/// Calls `char::from_u32`, whose documentation states that it returns `None` exactly
/// when the value is a surrogate or exceeds `char::MAX` (`U+10FFFF`), and otherwise the
/// `char` with that value. The contract claims exactly that.
#[verifier::external_body]
fn char_from_u32(value: u32) -> (r: Option<char>)
    ensures
        r is Some <==> is_scalar_spec(value),
        r matches Some(c) ==> c as u32 == value,
{
    char::from_u32(value)
}

/// Namespace for Unicode constants and encoding-independent code point helpers.
pub struct Unicode;

impl Unicode {
    /// Maximum valid Unicode code point.
    pub const MAX_CODE_POINT: u32 = 0x10ffff;

    /// Unicode replacement character.
    pub const REPLACEMENT_CHARACTER: char = '\u{fffd}';

    /// Unicode byte order mark character.
    pub const BOM: char = '\u{feff}';

    /// Maximum valid ASCII code point.
    pub const ASCII_MAX: u32 = 0x7f;

    /// Maximum valid Latin-1 code point.
    pub const LATIN1_MAX: u32 = 0xff;

    /// Minimum supplementary code point.
    pub const SUPPLEMENTARY_MIN: u32 = 0x10000;

    /// Minimum high-surrogate code unit value.
    pub const HIGH_SURROGATE_MIN: u32 = 0xd800;

    /// Maximum high-surrogate code unit value.
    pub const HIGH_SURROGATE_MAX: u32 = 0xdbff;

    /// Minimum low-surrogate code unit value.
    pub const LOW_SURROGATE_MIN: u32 = 0xdc00;

    /// Maximum low-surrogate code unit value.
    pub const LOW_SURROGATE_MAX: u32 = 0xdfff;

    /// Minimum surrogate code unit value.
    pub const SURROGATE_MIN: u32 = 0xd800;

    /// Maximum surrogate code unit value.
    pub const SURROGATE_MAX: u32 = 0xdfff;

    /// Tests whether `value` is in the Unicode code point range `0x0000..=0x10FFFF`,
    /// surrogate code points included.
    pub fn is_code_point(value: u32) -> (r: bool)
        ensures
            r == (value <= 0x10ffff),
    {
        value <= Self::MAX_CODE_POINT
    }

    /// Tests whether `value` is a valid Unicode scalar value (a code point that is not a
    /// surrogate).
    pub fn is_scalar_value(value: u32) -> (r: bool)
        ensures
            r == is_scalar_spec(value),
    {
        Self::is_code_point(value) && !Self::is_surrogate(value)
    }

    /// Tests whether `value` is in the surrogate range `0xD800..=0xDFFF`.
    pub fn is_surrogate(value: u32) -> (r: bool)
        ensures
            r == (0xd800 <= value <= 0xdfff),
    {
        value >= Self::SURROGATE_MIN && value <= Self::SURROGATE_MAX
    }

    /// Tests whether `value` is in the high-surrogate range `0xD800..=0xDBFF`.
    pub fn is_high_surrogate(value: u32) -> (r: bool)
        ensures
            r == (0xd800 <= value <= 0xdbff),
    {
        value >= Self::HIGH_SURROGATE_MIN && value <= Self::HIGH_SURROGATE_MAX
    }

    /// Tests whether `value` is in the low-surrogate range `0xDC00..=0xDFFF`.
    pub fn is_low_surrogate(value: u32) -> (r: bool)
        ensures
            r == (0xdc00 <= value <= 0xdfff),
    {
        value >= Self::LOW_SURROGATE_MIN && value <= Self::LOW_SURROGATE_MAX
    }

    /// Tests whether `value` lies in the basic multilingual plane `0x0000..=0xFFFF`.
    pub fn is_bmp(value: u32) -> (r: bool)
        ensures
            r == (value < 0x10000),
    {
        value < Self::SUPPLEMENTARY_MIN
    }

    /// Tests whether `value` is a supplementary code point `0x10000..=0x10FFFF`.
    pub fn is_supplementary(value: u32) -> (r: bool)
        ensures
            r == (0x10000 <= value <= 0x10ffff),
    {
        value >= Self::SUPPLEMENTARY_MIN && value <= Self::MAX_CODE_POINT
    }

    /// Tests whether `value` is an ASCII code point `0x00..=0x7F`.
    pub fn is_ascii(value: u32) -> (r: bool)
        ensures
            r == (value <= 0x7f),
    {
        value <= Self::ASCII_MAX
    }

    /// Tests whether `value` is a Unicode noncharacter, such as `U+FDD0..=U+FDEF` or a
    /// code point ending in `FFFE` or `FFFF`.
    pub fn is_noncharacter(value: u32) -> (r: bool)
        ensures
            r == is_noncharacter_spec(value),
    {
        let masked: u32 = value & 0xfffe;
        assert(masked == 0xfffe <==> value % 0x10000 >= 0xfffe) by (bit_vector)
            requires
                masked == value & 0xfffe,
        ;
        Self::is_code_point(value) && ((value >= 0xfdd0 && value <= 0xfdef) || masked == 0xfffe)
    }

    /// Tests whether `value` is a C0 control, `DEL`, or a C1 control code point.
    pub fn is_control(value: u32) -> (r: bool)
        ensures
            r == (value <= 0x1f || (0x7f <= value <= 0x9f)),
    {
        value <= 0x1f || (value >= 0x7f && value <= 0x9f)
    }

    /// Returns the Unicode plane containing `value`, or `None` above `U+10FFFF`.
    pub fn plane(value: u32) -> (r: Option<u32>)
        ensures
            r == (if value <= 0x10ffff {
                Some((value / 0x10000) as u32)
            } else {
                None::<u32>
            }),
    {
        if Self::is_code_point(value) {
            let p: u32 = value >> 16;
            assert(p == value / 0x10000) by (bit_vector)
                requires
                    p == value >> 16,
            ;
            Some(p)
        } else {
            None
        }
    }

    /// Converts a raw code point into a `char`: `Some` for Unicode scalar values and
    /// `None` otherwise.
    pub fn to_char(value: u32) -> (r: Option<char>)
        ensures
            r is Some <==> is_scalar_spec(value),
            r matches Some(c) ==> c as u32 == value,
    {
        char_from_u32(value)
    }
}

} // verus!
