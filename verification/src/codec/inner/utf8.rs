use vstd::prelude::*;
use vstd::utf8::{
    codepoint_width_2, codepoint_width_3, codepoint_width_4, decode_first_codepoint,
    decode_first_scalar, encode_scalar, is_scalar, length_of_first_scalar, valid_first_scalar,
};

use crate::charset::{spec_utf8_sequence_len, spec_utf8_width, Unicode, Utf8};
use crate::codec::charset_codec::splice;
use crate::codec::decode_status::DecodeStatus;
use crate::encoding::Charset;
use crate::error::{
    CharsetDecodeError, CharsetDecodeErrorKind, CharsetDecodeResult, CharsetEncodeError,
    CharsetEncodeErrorKind, CharsetEncodeResult,
};

verus! {

/// True when `byte` has the continuation pattern `10xxxxxx`.
pub open spec fn spec_is_continuation(byte: u8) -> bool {
    0x80 <= byte <= 0xbf
}

/// True when `second` may follow the leading byte `first` in a well-formed UTF-8
/// sequence (the byte ranges of Unicode's table of well-formed UTF-8 byte sequences).
pub open spec fn spec_utf8_second_byte_ok(first: u8, second: u8) -> bool {
    if 0xc2 <= first <= 0xdf {
        spec_is_continuation(second)
    } else if first == 0xe0 {
        0xa0 <= second <= 0xbf
    } else if first == 0xed {
        0x80 <= second <= 0x9f
    } else if (0xe1 <= first <= 0xec) || (0xee <= first <= 0xef) {
        spec_is_continuation(second)
    } else if first == 0xf0 {
        0x90 <= second <= 0xbf
    } else if 0xf1 <= first <= 0xf3 {
        spec_is_continuation(second)
    } else if first == 0xf4 {
        0x80 <= second <= 0x8f
    } else {
        false
    }
}

/// True when the byte at offset `j` (`j >= 1`) of a sequence starting with `rest[0]` is
/// acceptable there.
pub open spec fn spec_utf8_byte_ok(rest: Seq<u8>, j: int) -> bool {
    if j == 1 {
        spec_utf8_second_byte_ok(rest[0], rest[1])
    } else {
        spec_is_continuation(rest[j])
    }
}

/// The first offset in `from..min(len, rest.len())` whose byte is not acceptable in a
/// sequence of `len` bytes starting with `rest[0]`, if any.
pub open spec fn spec_utf8_first_bad(rest: Seq<u8>, len: int, from: int) -> Option<int>
    decreases len - from,
{
    if from >= len || from >= rest.len() {
        None
    } else if !spec_utf8_byte_ok(rest, from) {
        Some(from)
    } else {
        spec_utf8_first_bad(rest, len, from + 1)
    }
}

/// Decoding one UTF-8 character at `index`.
///
/// The leading byte fixes the sequence length; each following byte that is present is
/// checked in order, and the first unacceptable one is reported as malformed at its own
/// index with its value. A well-formed but cut-off sequence needs more input; a complete
/// one decodes to its scalar value.
pub open spec fn spec_decode_utf8(input: Seq<u8>, index: usize) -> CharsetDecodeResult<
    DecodeStatus,
> {
    let charset = Charset::spec_utf_8();
    if index > input.len() {
        Err(CharsetDecodeError::spec_malformed_sequence(charset, index))
    } else if index == input.len() {
        Ok(DecodeStatus::NeedMore { required: index.saturating_add(1), available: 0 })
    } else {
        let rest = input.subrange(index as int, input.len() as int);
        let len = spec_utf8_sequence_len(rest[0]);
        if len == 0 {
            Err(CharsetDecodeError::spec_malformed_value(charset, index, rest[0] as u32))
        } else {
            match spec_utf8_first_bad(rest, len, 1) {
                Some(j) => Err(
                    CharsetDecodeError::spec_malformed_value(
                        charset,
                        (index + j) as usize,
                        rest[j] as u32,
                    ),
                ),
                None => if rest.len() < len {
                    Ok(
                        DecodeStatus::NeedMore {
                            required: index.saturating_add(len as usize),
                            available: rest.len() as usize,
                        },
                    )
                } else {
                    Ok(
                        DecodeStatus::Complete {
                            value: decode_first_codepoint(rest) as char,
                            consumed: len as usize,
                        },
                    )
                },
            }
        }
    }
}

/// Encoding `ch` as UTF-8 at `index` of an output of `output_len` bytes.
pub open spec fn spec_encode_utf8(ch: char, output_len: usize, index: usize) -> CharsetEncodeResult<
    Seq<u8>,
> {
    let charset = Charset::spec_utf_8();
    let len = spec_utf8_width(ch as u32);
    if index > output_len {
        Err(CharsetEncodeError::spec_buffer_too_small(charset, index))
    } else if output_len - index < len {
        Err(
            CharsetEncodeError::spec_new(
                charset,
                CharsetEncodeErrorKind::BufferTooSmall {
                    required: index.saturating_add(len as usize),
                    available: (output_len - index) as usize,
                },
                index,
            ),
        )
    } else {
        Ok(encode_scalar(ch as u32))
    }
}

/// The UTF-8 encoding of a character has the byte count given by its code point range.
pub proof fn lemma_encode_scalar_len(ch: char)
    ensures
        encode_scalar(ch as u32).len() == spec_utf8_width(ch as u32),
{
    vstd::utf8::char_is_scalar(ch);
}

/// A sequence whose leading byte announces `len` bytes and whose `len` bytes are all
/// acceptable decodes to a scalar value.
proof fn lemma_well_formed_is_scalar(rest: Seq<u8>)
    requires
        rest.len() >= spec_utf8_sequence_len(rest[0]) > 0,
        spec_utf8_first_bad(rest, spec_utf8_sequence_len(rest[0]), 1) is None,
    ensures
        is_scalar(decode_first_codepoint(rest)),
        decode_first_codepoint(rest) <= 0x10ffff,
        !(0xd800 <= decode_first_codepoint(rest) <= 0xdfff),
{
    let len = spec_utf8_sequence_len(rest[0]);
    let b0 = rest[0];
    reveal_with_fuel(spec_utf8_first_bad, 4);
    if len == 1 {
        assert(decode_first_codepoint(rest) == (b0 & 0x7f) as u32);
        assert(b0 <= 0x7f ==> (b0 & 0x7f) as u32 <= 0x7f) by (bit_vector);
    } else if len == 2 {
        let b1 = rest[1];
        assert(spec_utf8_byte_ok(rest, 1));
        assert(0xc2 <= b0 <= 0xdf && 0x80 <= b1 <= 0xbf ==> 0x80 <= codepoint_width_2(b0, b1)
            <= 0x7ff) by (bit_vector);
    } else if len == 3 {
        let b1 = rest[1];
        let b2 = rest[2];
        assert(spec_utf8_byte_ok(rest, 1));
        assert(spec_utf8_byte_ok(rest, 2));
        assert(0xe0 <= b0 <= 0xef && spec_utf8_second_byte_ok(b0, b1) && 0x80 <= b2 <= 0xbf ==> (
        0x800 <= codepoint_width_3(b0, b1, b2) <= 0xffff && !(0xd800 <= codepoint_width_3(
            b0,
            b1,
            b2,
        ) <= 0xdfff))) by (bit_vector);
    } else {
        let b1 = rest[1];
        let b2 = rest[2];
        let b3 = rest[3];
        assert(spec_utf8_byte_ok(rest, 1));
        assert(spec_utf8_byte_ok(rest, 2));
        assert(spec_utf8_byte_ok(rest, 3));
        assert(0xf0 <= b0 <= 0xf4 && spec_utf8_second_byte_ok(b0, b1) && 0x80 <= b2 <= 0xbf && 0x80
            <= b3 <= 0xbf ==> 0x10000 <= codepoint_width_4(b0, b1, b2, b3) <= 0x10ffff)
            by (bit_vector);
    }
}

/// Decoding at `index` completes exactly when the bytes from `index` begin with a
/// well-formed UTF-8 encoding of one scalar value in the standard sense (right bit
/// patterns, not overlong, not a surrogate, at most `U+10FFFF`), and then gives that
/// scalar value and its length.
pub proof fn lemma_utf8_decode_matches_standard(input: Seq<u8>, index: usize)
    requires
        index < input.len(),
    ensures
        ({
            let rest = input.subrange(index as int, input.len() as int);
            &&& (spec_decode_utf8(input, index) matches Ok(DecodeStatus::Complete { .. }))
                <==> valid_first_scalar(rest)
            &&& valid_first_scalar(rest) ==> spec_decode_utf8(input, index) == Ok::<
                DecodeStatus,
                CharsetDecodeError,
            >(
                DecodeStatus::Complete {
                    value: decode_first_scalar(rest) as char,
                    consumed: length_of_first_scalar(rest) as usize,
                },
            )
        }),
{
    let rest = input.subrange(index as int, input.len() as int);
    reveal_with_fuel(spec_utf8_first_bad, 5);
    let b0 = rest[0];
    if rest.len() >= 2 {
        let b1 = rest[1];
        assert(0xc0 <= b0 <= 0xc1 ==> codepoint_width_2(b0, b1) < 0x80) by (bit_vector);
        assert(0xc2 <= b0 <= 0xdf && 0x80 <= b1 <= 0xbf ==> 0x80 <= codepoint_width_2(b0, b1)
            <= 0x7ff) by (bit_vector);
    }
    if rest.len() >= 3 {
        let b1 = rest[1];
        let b2 = rest[2];
        assert(0xe0 <= b0 <= 0xef && 0x80 <= b1 <= 0xbf && 0x80 <= b2 <= 0xbf ==> (
        spec_utf8_second_byte_ok(b0, b1) <==> (0x800 <= codepoint_width_3(b0, b1, b2) && !(0xd800
            <= codepoint_width_3(b0, b1, b2) <= 0xdfff)))) by (bit_vector);
        assert(0xe0 <= b0 <= 0xef ==> codepoint_width_3(b0, b1, b2) <= 0xffff) by (bit_vector);
    }
    if rest.len() >= 4 {
        let b1 = rest[1];
        let b2 = rest[2];
        let b3 = rest[3];
        assert(0xf0 <= b0 <= 0xf4 && 0x80 <= b1 <= 0xbf && 0x80 <= b2 <= 0xbf && 0x80 <= b3
            <= 0xbf ==> (spec_utf8_second_byte_ok(b0, b1) <==> (0x10000 <= codepoint_width_4(
            b0,
            b1,
            b2,
            b3,
        ) <= 0x10ffff))) by (bit_vector);
        assert(0xf5 <= b0 <= 0xf7 && 0x80 <= b1 <= 0xbf ==> codepoint_width_4(b0, b1, b2, b3)
            > 0x10ffff) by (bit_vector);
    }
    if 0xc2 <= b0 <= 0xf4 && rest.len() >= 2 {
        let b1 = rest[1];
        assert(spec_utf8_second_byte_ok(b0, b1) ==> spec_is_continuation(b1));
    }
    if valid_first_scalar(rest) && b0 <= 0x7f {
        assert((b0 & 0x7f) as u32 == b0 as u32) by (bit_vector)
            requires
                b0 <= 0x7f,
        ;
    }
}

/// Decoding the UTF-8 encoding of a character, wherever it stands in a buffer and
/// whatever follows it, gives back that character and the length of its encoding.
pub proof fn lemma_utf8_encode_then_decode(ch: char, input: Seq<u8>, index: usize)
    requires
        index + encode_scalar(ch as u32).len() <= input.len(),
        input.subrange(index as int, index + encode_scalar(ch as u32).len())
            == encode_scalar(ch as u32),
    ensures
        spec_decode_utf8(input, index) == Ok::<DecodeStatus, CharsetDecodeError>(
            DecodeStatus::Complete { value: ch, consumed: encode_scalar(ch as u32).len() as usize },
        ),
{
    let e = encode_scalar(ch as u32);
    let rest = input.subrange(index as int, input.len() as int);
    vstd::utf8::encode_utf8_first_scalar(seq![ch]);
    assert(seq![ch].drop_first() =~= Seq::<char>::empty());
    reveal_with_fuel(vstd::utf8::encode_utf8, 2);
    assert(vstd::utf8::encode_utf8(seq![ch]) =~= e);
    assert(e.len() >= 1);
    assert forall|i: int| 0 <= i < e.len() implies rest[i] == e[i] by {
        assert(input.subrange(index as int, index + e.len())[i] == input[index + i]);
    }
    assert(valid_first_scalar(rest));
    assert(decode_first_scalar(rest) == decode_first_scalar(e));
    assert(length_of_first_scalar(rest) == length_of_first_scalar(e));
    lemma_utf8_decode_matches_standard(input, index);
    vstd::utf8::char_u32_cast(ch, decode_first_scalar(rest));
}

/// Checks whether `second` is legal after the UTF-8 leading byte `first`.
pub fn is_valid_second_byte(first: u8, second: u8) -> (r: bool)
    ensures
        r == spec_utf8_second_byte_ok(first, second),
{
    if first >= 0xc2 && first <= 0xdf {
        Utf8::is_continuation_byte(second)
    } else if first == 0xe0 {
        second >= 0xa0 && second <= 0xbf
    } else if first == 0xed {
        second >= 0x80 && second <= 0x9f
    } else if (first >= 0xe1 && first <= 0xec) || (first >= 0xee && first <= 0xef) {
        Utf8::is_continuation_byte(second)
    } else if first == 0xf0 {
        second >= 0x90 && second <= 0xbf
    } else if first >= 0xf1 && first <= 0xf3 {
        Utf8::is_continuation_byte(second)
    } else if first == 0xf4 {
        second >= 0x80 && second <= 0x8f
    } else {
        false
    }
}

/// The error reported for the unacceptable byte at `index`.
fn malformed_at(input: &[u8], index: usize) -> (r: CharsetDecodeError)
    requires
        index < input@.len(),
    ensures
        r == CharsetDecodeError::spec_malformed_value(
            Charset::spec_utf_8(),
            index,
            input@[index as int] as u32,
        ),
{
    let kind = CharsetDecodeErrorKind::MalformedSequence { value: Some(input[index] as u32) };
    CharsetDecodeError::new(Charset::utf_8(), kind, index)
}

/// Decodes a two-byte sequence starting at `index`, checking its second byte.
pub fn decode_two(input: &[u8], index: usize) -> (r: CharsetDecodeResult<u32>)
    requires
        index + 1 < input.len(),
    ensures
        r == (if !spec_is_continuation(input@[index + 1]) {
            Err(
                CharsetDecodeError::spec_malformed_value(
                    Charset::spec_utf_8(),
                    (index + 1) as usize,
                    input@[index + 1] as u32,
                ),
            )
        } else {
            Ok(codepoint_width_2(input@[index as int], input@[index + 1]))
        }),
{
    let second = input[index + 1];
    if !Utf8::is_continuation_byte(second) {
        return Err(malformed_at(input, index + 1));
    }
    Ok((((input[index] & 0x1f) as u32) << 6) | ((second & 0x3f) as u32))
}

/// Decodes a three-byte sequence starting at `index`, checking its second and third
/// bytes in order.
pub fn decode_three(input: &[u8], index: usize) -> (r: CharsetDecodeResult<u32>)
    requires
        index + 2 < input.len(),
    ensures
        r == (if !spec_utf8_second_byte_ok(input@[index as int], input@[index + 1]) {
            Err(
                CharsetDecodeError::spec_malformed_value(
                    Charset::spec_utf_8(),
                    (index + 1) as usize,
                    input@[index + 1] as u32,
                ),
            )
        } else if !spec_is_continuation(input@[index + 2]) {
            Err(
                CharsetDecodeError::spec_malformed_value(
                    Charset::spec_utf_8(),
                    (index + 2) as usize,
                    input@[index + 2] as u32,
                ),
            )
        } else {
            Ok(codepoint_width_3(input@[index as int], input@[index + 1], input@[index + 2]))
        }),
{
    let first = input[index];
    let second = input[index + 1];
    let third = input[index + 2];
    if !is_valid_second_byte(first, second) {
        return Err(malformed_at(input, index + 1));
    }
    if !Utf8::is_continuation_byte(third) {
        return Err(malformed_at(input, index + 2));
    }
    Ok((((first & 0x0f) as u32) << 12) | (((second & 0x3f) as u32) << 6) | ((third & 0x3f) as u32))
}

/// Decodes a four-byte sequence starting at `index`, checking its second, third and
/// fourth bytes in order.
pub fn decode_four(input: &[u8], index: usize) -> (r: CharsetDecodeResult<u32>)
    requires
        index + 3 < input.len(),
    ensures
        r == (if !spec_utf8_second_byte_ok(input@[index as int], input@[index + 1]) {
            Err(
                CharsetDecodeError::spec_malformed_value(
                    Charset::spec_utf_8(),
                    (index + 1) as usize,
                    input@[index + 1] as u32,
                ),
            )
        } else if !spec_is_continuation(input@[index + 2]) {
            Err(
                CharsetDecodeError::spec_malformed_value(
                    Charset::spec_utf_8(),
                    (index + 2) as usize,
                    input@[index + 2] as u32,
                ),
            )
        } else if !spec_is_continuation(input@[index + 3]) {
            Err(
                CharsetDecodeError::spec_malformed_value(
                    Charset::spec_utf_8(),
                    (index + 3) as usize,
                    input@[index + 3] as u32,
                ),
            )
        } else {
            Ok(
                codepoint_width_4(
                    input@[index as int],
                    input@[index + 1],
                    input@[index + 2],
                    input@[index + 3],
                ),
            )
        }),
{
    let first = input[index];
    let second = input[index + 1];
    let third = input[index + 2];
    let fourth = input[index + 3];
    if !is_valid_second_byte(first, second) {
        return Err(malformed_at(input, index + 1));
    }
    if !Utf8::is_continuation_byte(third) {
        return Err(malformed_at(input, index + 2));
    }
    if !Utf8::is_continuation_byte(fourth) {
        return Err(malformed_at(input, index + 3));
    }
    Ok((((first & 0x07) as u32) << 18) | (((second & 0x3f) as u32) << 12) | (((third & 0x3f) as u32)
        << 6) | ((fourth & 0x3f) as u32))
}

/// Validates the bytes already present in an incomplete sequence starting at `index`:
/// the second byte against the leading byte, then the third as a continuation byte.
pub fn validate_partial(input: &[u8], index: usize) -> (r: CharsetDecodeResult<()>)
    ensures
        r == (if input@.len() - index >= 2 && !spec_utf8_second_byte_ok(
            input@[index as int],
            input@[index + 1],
        ) {
            Err(
                CharsetDecodeError::spec_malformed_value(
                    Charset::spec_utf_8(),
                    (index + 1) as usize,
                    input@[index + 1] as u32,
                ),
            )
        } else if input@.len() - index >= 3 && !spec_is_continuation(input@[index + 2]) {
            Err(
                CharsetDecodeError::spec_malformed_value(
                    Charset::spec_utf_8(),
                    (index + 2) as usize,
                    input@[index + 2] as u32,
                ),
            )
        } else {
            Ok(())
        }),
{
    if index < input.len() && input.len() - index >= 2 && !is_valid_second_byte(
        input[index],
        input[index + 1],
    ) {
        return Err(malformed_at(input, index + 1));
    }
    if index < input.len() && input.len() - index >= 3 && !Utf8::is_continuation_byte(
        input[index + 2],
    ) {
        return Err(malformed_at(input, index + 2));
    }
    Ok(())
}

/// Decodes the first UTF-8 character from `input` starting at `index`.
pub fn decode_prefix(input: &[u8], index: usize) -> (r: CharsetDecodeResult<DecodeStatus>)
    ensures
        r == spec_decode_utf8(input@, index),
{
    if index > input.len() {
        let kind = CharsetDecodeErrorKind::MalformedSequence { value: None };
        return Err(CharsetDecodeError::new(Charset::utf_8(), kind, index));
    }
    if index == input.len() {
        return Ok(DecodeStatus::NeedMore { required: index.saturating_add(1), available: 0 });
    }
    let ghost rest = input@.subrange(index as int, input@.len() as int);
    assert(forall|j: int| 0 <= j < rest.len() ==> rest[j] == input@[index + j]);
    let first = input[index];
    let length = match Utf8::byte_len_from_leading_byte(first) {
        Some(length) => length,
        None => {
            return Err(malformed_at(input, index));
        },
    };
    let available = input.len() - index;
    if available < length {
        let checked = validate_partial(input, index);
        assert(spec_utf8_first_bad(rest, length as int, 1) == if available >= 2
            && !spec_utf8_second_byte_ok(rest[0], rest[1]) {
            Some(1int)
        } else if available >= 3 && !spec_is_continuation(rest[2]) {
            Some(2int)
        } else {
            None::<int>
        }) by {
            reveal_with_fuel(spec_utf8_first_bad, 4);
        }
        match checked {
            Err(e) => return Err(e),
            Ok(()) => {},
        }
        return Ok(
            DecodeStatus::NeedMore { required: index.saturating_add(length), available },
        );
    }
    proof {
        reveal_with_fuel(spec_utf8_first_bad, 5);
    }
    let code_point = if length == 1 {
        first as u32
    } else if length == 2 {
        match decode_two(input, index) {
            Ok(v) => v,
            Err(e) => return Err(e),
        }
    } else if length == 3 {
        match decode_three(input, index) {
            Ok(v) => v,
            Err(e) => return Err(e),
        }
    } else {
        match decode_four(input, index) {
            Ok(v) => v,
            Err(e) => return Err(e),
        }
    };
    proof {
        if length == 1 {
            assert((first & 0x7f) as u32 == first as u32) by (bit_vector)
                requires
                    first <= 0x7f,
            ;
        }
        assert(code_point == decode_first_codepoint(rest));
        lemma_well_formed_is_scalar(rest);
    }
    match Unicode::to_char(code_point) {
        Some(ch) => {
            proof {
                vstd::utf8::char_u32_cast(ch, code_point);
            }
            Ok(DecodeStatus::Complete { value: ch, consumed: length })
        },
        None => Err(CharsetDecodeError::invalid_code_point(Charset::utf_8(), index, code_point)),
    }
}

/// The UTF-8 bytes of `ch`.
fn encode_scalar_bytes(ch: char) -> (r: ([u8; 4], usize))
    ensures
        r.1 == spec_utf8_width(ch as u32),
        r.0@.subrange(0, r.1 as int) == encode_scalar(ch as u32),
{
    let c: u32 = ch as u32;
    proof {
        vstd::utf8::char_is_scalar(ch);
    }
    let mut out: [u8; 4] = [0u8; 4];
    if c <= 0x7f {
        out[0] = (c & 0x7f) as u8;
        assert(out@.subrange(0, 1) =~= encode_scalar(c));
        (out, 1)
    } else if c <= 0x7ff {
        out[0] = 0xc0 | ((c >> 6) & 0x1f) as u8;
        out[1] = 0x80 | (c & 0x3f) as u8;
        assert(out@.subrange(0, 2) =~= encode_scalar(c));
        (out, 2)
    } else if c <= 0xffff {
        out[0] = 0xe0 | ((c >> 12) & 0x0f) as u8;
        out[1] = 0x80 | ((c >> 6) & 0x3f) as u8;
        out[2] = 0x80 | (c & 0x3f) as u8;
        assert(out@.subrange(0, 3) =~= encode_scalar(c));
        (out, 3)
    } else {
        out[0] = 0xf0 | ((c >> 18) & 0x7) as u8;
        out[1] = 0x80 | ((c >> 12) & 0x3f) as u8;
        out[2] = 0x80 | ((c >> 6) & 0x3f) as u8;
        out[3] = 0x80 | (c & 0x3f) as u8;
        assert(out@.subrange(0, 4) =~= encode_scalar(c));
        (out, 4)
    }
}

/// Encodes one character into UTF-8 at `index` of `output`.
pub fn encode_char(ch: char, output: &mut [u8], index: usize) -> (r: CharsetEncodeResult<usize>)
    ensures
        match spec_encode_utf8(ch, old(output)@.len() as usize, index) {
            Ok(units) => r == Ok::<usize, CharsetEncodeError>(units.len() as usize)
                && final(output)@ == splice(old(output)@, index as int, units),
            Err(e) => r == Err::<usize, CharsetEncodeError>(e) && final(output)@ == old(output)@,
        },
{
    if index > output.len() {
        let kind = CharsetEncodeErrorKind::BufferTooSmall {
            required: index.saturating_add(1),
            available: 0,
        };
        return Err(CharsetEncodeError::new(Charset::utf_8(), kind, index));
    }
    let length = Utf8::byte_len(ch);
    let available = output.len() - index;
    if available < length {
        let kind = CharsetEncodeErrorKind::BufferTooSmall {
            required: index.saturating_add(length),
            available,
        };
        return Err(CharsetEncodeError::new(Charset::utf_8(), kind, index));
    }
    let (scratch, n) = encode_scalar_bytes(ch);
    let mut i: usize = 0;
    while i < n
        invariant
            n == length,
            n <= 4,
            index + n <= old(output)@.len(),
            index + n <= usize::MAX,
            output@.len() == old(output)@.len(),
            i <= n,
            output@ == splice(old(output)@, index as int, scratch@.subrange(0, i as int)),
        decreases n - i,
    {
        output[index + i] = scratch[i];
        i = i + 1;
        assert(output@ =~= splice(old(output)@, index as int, scratch@.subrange(0, i as int)));
    }
    Ok(length)
}


/// Looking for an unacceptable byte gives the same answer when more bytes follow, as long
/// as the bytes present already decide it; a bad offset found lies inside the bytes.
proof fn lemma_first_bad_extends(rest: Seq<u8>, more: Seq<u8>, len: int, from: int)
    requires
        1 <= from,
        1 <= rest.len(),
        spec_utf8_first_bad(rest, len, from) is Some || len <= rest.len(),
    ensures
        spec_utf8_first_bad(rest + more, len, from) == spec_utf8_first_bad(rest, len, from),
        spec_utf8_first_bad(rest, len, from) matches Some(j) ==> from <= j < rest.len(),
    decreases len - from,
{
    if from < len && from < rest.len() {
        assert((rest + more)[from] == rest[from]);
        assert((rest + more)[0] == rest[0]);
        assert((rest + more)[1] == rest[1]);
        if spec_utf8_byte_ok(rest, from) {
            lemma_first_bad_extends(rest, more, len, from + 1);
        }
    }
}

/// A UTF-8 character that the input already decides, completely or as malformed,
/// decodes the same whatever bytes follow, and a reported error lies inside the input.
pub proof fn lemma_utf8_decode_extends(input: Seq<u8>, more: Seq<u8>, index: usize)
    requires
        index < input.len(),
        !(spec_decode_utf8(input, index) matches Ok(DecodeStatus::NeedMore { .. })),
    ensures
        spec_decode_utf8(input + more, index) == spec_decode_utf8(input, index),
        spec_decode_utf8(input, index) matches Err(e) ==> e.spec_index() < input.len(),
{
    broadcast use crate::error::lemma_decode_error_parts;

    let whole = input + more;
    let rest = input.subrange(index as int, input.len() as int);
    let rest2 = whole.subrange(index as int, whole.len() as int);
    assert(rest2 =~= rest + more);
    assert(rest2[0] == rest[0]);
    let len = spec_utf8_sequence_len(rest[0]);
    if len != 0 {
        lemma_first_bad_extends(rest, more, len, 1);
        if spec_utf8_first_bad(rest, len, 1) is None {
            if len >= 2 {
                assert(rest2[1] == rest[1]);
            }
            if len >= 3 {
                assert(rest2[2] == rest[2]);
            }
            if len >= 4 {
                assert(rest2[3] == rest[3]);
            }
            assert(decode_first_codepoint(rest2) == decode_first_codepoint(rest));
        }
    }
}

/// UTF-8 decoding asks for more input only when every byte present could still begin a
/// well-formed character: a leading byte of a multi-byte sequence followed only by
/// continuation bytes, with an allowed second byte, and fewer bytes than the sequence
/// needs. A sequence with any other byte present is reported malformed, never as
/// incomplete.
pub proof fn lemma_utf8_need_more_is_valid_prefix(input: Seq<u8>, index: usize)
    ensures
        spec_decode_utf8(input, index) is Ok && spec_decode_utf8(input, index)->Ok_0 is NeedMore
            && index < input.len() ==> {
            let lead = input[index as int];
            let present = input.len() - index;
            &&& 0xc2 <= lead <= 0xf4
            &&& present < (if lead <= 0xdf {
                2int
            } else if lead <= 0xef {
                3int
            } else {
                4int
            })
            &&& forall|j: int| index < j < input.len() ==> 0x80 <= #[trigger] input[j] <= 0xbf
            &&& present >= 2 ==> {
                let second = input[index + 1];
                &&& lead == 0xe0 ==> second >= 0xa0
                &&& lead == 0xed ==> second <= 0x9f
                &&& lead == 0xf0 ==> second >= 0x90
                &&& lead == 0xf4 ==> second <= 0x8f
            }
        },
{
    reveal_with_fuel(spec_utf8_first_bad, 5);
    if index < input.len() {
        let rest = input.subrange(index as int, input.len() as int);
        assert forall|j: int| index < j < input.len() implies rest[j - index] == input[j] by {}
        assert(rest[0] == input[index as int]);
    }
}

} // verus!
