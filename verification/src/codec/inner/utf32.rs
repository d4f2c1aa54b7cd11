use vstd::prelude::*;

use crate::byte_order::ByteOrder;
use crate::charset::{is_scalar_spec, Unicode};
use crate::codec::charset_codec::splice;
use crate::codec::decode_status::DecodeStatus;
use crate::encoding::Charset;
use crate::error::{CharsetDecodeError, CharsetDecodeResult, CharsetEncodeError, CharsetEncodeResult};

verus! {

/// Decoding one UTF-32 code unit at `index`: a scalar value decodes to itself; any other
/// value is an invalid code point; an index past the end is malformed.
pub open spec fn spec_decode_utf32_units(input: Seq<u32>, index: usize) -> CharsetDecodeResult<
    DecodeStatus,
> {
    if index > input.len() {
        Err(CharsetDecodeError::spec_malformed_sequence(Charset::spec_utf_32(), index))
    } else if index == input.len() {
        Ok(DecodeStatus::NeedMore { required: index.saturating_add(1), available: 0 })
    } else if is_scalar_spec(input[index as int]) {
        Ok(DecodeStatus::Complete { value: input[index as int] as char, consumed: 1 })
    } else {
        Err(
            CharsetDecodeError::spec_invalid_code_point(
                Charset::spec_utf_32(),
                index,
                input[index as int],
            ),
        )
    }
}

/// Encoding `ch` as one UTF-32 code unit at `index` of an output of `output_len` units.
pub open spec fn spec_encode_utf32_units(ch: char, output_len: usize, index: usize) -> CharsetEncodeResult<
    Seq<u32>,
> {
    if index >= output_len {
        Err(CharsetEncodeError::spec_buffer_too_small(Charset::spec_utf_32(), index))
    } else {
        Ok(seq![ch as u32])
    }
}

/// Decoding one byte-serialized UTF-32 code unit at `index`.
pub open spec fn spec_decode_utf32_bytes(input: Seq<u8>, index: usize, byte_order: ByteOrder) -> CharsetDecodeResult<
    DecodeStatus,
> {
    let charset = Charset::spec_from_utf32_byte_order(byte_order);
    if index > input.len() {
        Err(CharsetDecodeError::spec_malformed_sequence(charset, index))
    } else if input.len() - index < 4 {
        Ok(
            DecodeStatus::NeedMore {
                required: index.saturating_add(4),
                available: (input.len() - index) as usize,
            },
        )
    } else {
        let i = index as int;
        let unit = byte_order.spec_read_u32(input[i], input[i + 1], input[i + 2], input[i + 3]);
        if is_scalar_spec(unit) {
            Ok(DecodeStatus::Complete { value: unit as char, consumed: 4 })
        } else {
            Err(CharsetDecodeError::spec_invalid_code_point(charset, index, unit))
        }
    }
}

/// Encoding `ch` as four UTF-32 bytes at `index` of an output of `output_len` bytes.
pub open spec fn spec_encode_utf32_bytes(
    ch: char,
    output_len: usize,
    byte_order: ByteOrder,
    index: usize,
) -> CharsetEncodeResult<Seq<u8>> {
    let charset = Charset::spec_from_utf32_byte_order(byte_order);
    if index > output_len {
        Err(CharsetEncodeError::spec_buffer_too_small(charset, index))
    } else if output_len - index < 4 {
        Err(CharsetEncodeError::spec_buffer_too_small(charset, output_len))
    } else {
        Ok(byte_order.spec_u32_bytes(ch as u32))
    }
}

/// Decodes the first UTF-32 character from a `u32` prefix starting at `index`.
pub fn decode_units_prefix(input: &[u32], index: usize) -> (r: CharsetDecodeResult<DecodeStatus>)
    ensures
        r == spec_decode_utf32_units(input@, index),
{
    if index > input.len() {
        return Err(CharsetDecodeError::malformed_sequence(Charset::utf_32(), index));
    }
    if index == input.len() {
        return Ok(DecodeStatus::NeedMore { required: index.saturating_add(1), available: 0 });
    }
    match Unicode::to_char(input[index]) {
        Some(ch) => {
            proof {
                vstd::utf8::char_u32_cast(ch, input@[index as int]);
            }
            Ok(DecodeStatus::Complete { value: ch, consumed: 1 })
        },
        None => Err(CharsetDecodeError::invalid_code_point(Charset::utf_32(), index, input[index])),
    }
}

/// Encodes one character into a UTF-32 `u32` unit at `index` of `output`.
pub fn encode_units_char(ch: char, output: &mut [u32], index: usize) -> (r: CharsetEncodeResult<
    usize,
>)
    ensures
        match spec_encode_utf32_units(ch, old(output)@.len() as usize, index) {
            Ok(units) => r == Ok::<usize, CharsetEncodeError>(units.len() as usize) && final(output)@ == splice(old(output)@, index as int, units),
            Err(e) => r == Err::<usize, CharsetEncodeError>(e) && final(output)@ == old(output)@,
        },
{
    if index >= output.len() {
        return Err(CharsetEncodeError::buffer_too_small(Charset::utf_32(), index));
    }
    output[index] = ch as u32;
    assert(output@ =~= splice(old(output)@, index as int, seq![ch as u32]));
    Ok(1)
}

/// Decodes the first UTF-32 character from a byte prefix starting at `index`.
pub fn decode_bytes_prefix(input: &[u8], index: usize, byte_order: ByteOrder) -> (r:
    CharsetDecodeResult<DecodeStatus>)
    ensures
        r == spec_decode_utf32_bytes(input@, index, byte_order),
{
    let charset = Charset::from_utf32_byte_order(byte_order);
    if index > input.len() {
        return Err(CharsetDecodeError::malformed_sequence(charset, index));
    }
    if input.len() - index < 4 {
        return Ok(
            DecodeStatus::NeedMore {
                required: index.saturating_add(4),
                available: input.len() - index,
            },
        );
    }
    let unit = byte_order.read_u32(&input[index..input.len()]);
    match Unicode::to_char(unit) {
        Some(ch) => {
            proof {
                vstd::utf8::char_u32_cast(ch, unit);
            }
            Ok(DecodeStatus::Complete { value: ch, consumed: 4 })
        },
        None => Err(CharsetDecodeError::invalid_code_point(charset, index, unit)),
    }
}

/// Encodes one character into byte-serialized UTF-32 at `index` of `output`.
pub fn encode_bytes_char(ch: char, output: &mut [u8], byte_order: ByteOrder, index: usize) -> (r:
    CharsetEncodeResult<usize>)
    ensures
        match spec_encode_utf32_bytes(ch, old(output)@.len() as usize, byte_order, index) {
            Ok(units) => r == Ok::<usize, CharsetEncodeError>(units.len() as usize) && final(output)@ == splice(old(output)@, index as int, units),
            Err(e) => r == Err::<usize, CharsetEncodeError>(e) && final(output)@ == old(output)@,
        },
{
    let charset = Charset::from_utf32_byte_order(byte_order);
    if index > output.len() {
        return Err(CharsetEncodeError::buffer_too_small(charset, index));
    }
    if output.len() - index < 4 {
        return Err(CharsetEncodeError::buffer_too_small(charset, output.len()));
    }
    let bytes = byte_order.u32_bytes(ch as u32);
    output[index] = bytes[0];
    output[index + 1] = bytes[1];
    output[index + 2] = bytes[2];
    output[index + 3] = bytes[3];
    assert(output@ =~= splice(old(output)@, index as int, bytes@));
    Ok(4)
}

} // verus!

verus! {

/// Decoding the UTF-32 code unit of a character gives back that character.
pub proof fn lemma_utf32_units_encode_then_decode(ch: char, input: Seq<u32>, index: usize)
    requires
        index < input.len(),
        input[index as int] == ch as u32,
    ensures
        spec_decode_utf32_units(input, index) == Ok::<DecodeStatus, CharsetDecodeError>(
            DecodeStatus::Complete { value: ch, consumed: 1 },
        ),
{
    vstd::utf8::char_is_scalar(ch);
    vstd::utf8::char_u32_cast(ch, input[index as int]);
}

/// Decoding the four UTF-32 bytes of a character, in the byte order they were written
/// in, gives back that character.
pub proof fn lemma_utf32_bytes_encode_then_decode(
    ch: char,
    byte_order: ByteOrder,
    input: Seq<u8>,
    index: usize,
)
    requires
        index + 4 <= input.len(),
        input.subrange(index as int, index + 4) == byte_order.spec_u32_bytes(ch as u32),
    ensures
        spec_decode_utf32_bytes(input, index, byte_order) == Ok::<DecodeStatus, CharsetDecodeError>(
            DecodeStatus::Complete { value: ch, consumed: 4 },
        ),
{
    let i = index as int;
    let b = byte_order.spec_u32_bytes(ch as u32);
    crate::byte_order::lemma_u32_bytes_then_read(byte_order, ch as u32);
    assert forall|k: int| 0 <= k < 4 implies input[i + k] == b[k] by {
        assert(input.subrange(i, i + 4)[k] == input[i + k]);
    }
    vstd::utf8::char_is_scalar(ch);
    vstd::utf8::char_u32_cast(
        ch,
        byte_order.spec_read_u32(input[i], input[i + 1], input[i + 2], input[i + 3]),
    );
}

} // verus!
