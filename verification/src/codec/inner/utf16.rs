use vstd::prelude::*;

use crate::byte_order::{lemma_u16_bytes_then_read, ByteOrder};
use crate::charset::{spec_compose_pair, spec_high_surrogate, spec_low_surrogate, Unicode, Utf16};
use crate::codec::charset_codec::splice;
use crate::codec::decode_status::DecodeStatus;
use crate::encoding::Charset;
use crate::error::{CharsetDecodeError, CharsetDecodeResult, CharsetEncodeError, CharsetEncodeResult};

verus! {

/// The UTF-16 code units of `ch`: itself in the basic multilingual plane, otherwise its
/// high and low surrogates.
pub open spec fn spec_utf16_units_of(ch: char) -> Seq<u16> {
    if (ch as u32) < 0x10000 {
        seq![ch as u32 as u16]
    } else {
        seq![spec_high_surrogate(ch as u32), spec_low_surrogate(ch as u32)]
    }
}

/// The bytes of the UTF-16 code units of `ch` in `byte_order`.
pub open spec fn spec_utf16_bytes_of(ch: char, byte_order: ByteOrder) -> Seq<u8> {
    let units = spec_utf16_units_of(ch);
    if units.len() == 1 {
        byte_order.spec_u16_bytes(units[0])
    } else {
        byte_order.spec_u16_bytes(units[0]) + byte_order.spec_u16_bytes(units[1])
    }
}

/// Decoding one UTF-16 character from the code units `first` (at `index`) and, when
/// `first` is a high surrogate, the unit that follows it; `unit_len` is the unit width in
/// input positions and `available` the positions left from `index`.
pub open spec fn spec_decode_utf16_pair(
    charset: Charset,
    index: usize,
    unit_len: usize,
    available: int,
    first: u16,
    second: u16,
) -> CharsetDecodeResult<DecodeStatus> {
    if 0xd800 <= first <= 0xdbff {
        if available < 2 * unit_len {
            Ok(
                DecodeStatus::NeedMore {
                    required: index.saturating_add((2 * unit_len) as usize),
                    available: available as usize,
                },
            )
        } else if 0xdc00 <= second <= 0xdfff {
            Ok(
                DecodeStatus::Complete {
                    value: spec_compose_pair(first, second) as char,
                    consumed: (2 * unit_len) as usize,
                },
            )
        } else {
            Err(CharsetDecodeError::spec_malformed_sequence(charset, (index + unit_len) as usize))
        }
    } else if 0xdc00 <= first <= 0xdfff {
        Err(CharsetDecodeError::spec_malformed_sequence(charset, index))
    } else {
        Ok(DecodeStatus::Complete { value: first as u32 as char, consumed: unit_len })
    }
}

/// Decoding one UTF-16 character from code units at `index`: a non-surrogate unit
/// decodes to itself, a high surrogate followed by a low surrogate decodes to their
/// code point, a lone low surrogate or a high surrogate followed by anything else is
/// malformed, and a high surrogate at the end needs more input.
pub open spec fn spec_decode_utf16_units(input: Seq<u16>, index: usize) -> CharsetDecodeResult<
    DecodeStatus,
> {
    let charset = Charset::spec_utf_16();
    if index > input.len() {
        Err(CharsetDecodeError::spec_malformed_sequence(charset, index))
    } else if index == input.len() {
        Ok(DecodeStatus::NeedMore { required: index.saturating_add(1), available: 0 })
    } else {
        let available = input.len() - index;
        let second = if available >= 2 {
            input[index + 1]
        } else {
            0
        };
        spec_decode_utf16_pair(charset, index, 1, available, input[index as int], second)
    }
}

/// Decoding one byte-serialized UTF-16 character at `index`: as for code units, with
/// each unit read from two bytes in `byte_order`.
pub open spec fn spec_decode_utf16_bytes(input: Seq<u8>, index: usize, byte_order: ByteOrder) -> CharsetDecodeResult<
    DecodeStatus,
> {
    let charset = Charset::spec_from_utf16_byte_order(byte_order);
    if index > input.len() {
        Err(CharsetDecodeError::spec_malformed_sequence(charset, index))
    } else if input.len() - index < 2 {
        Ok(
            DecodeStatus::NeedMore {
                required: index.saturating_add(2),
                available: (input.len() - index) as usize,
            },
        )
    } else {
        let i = index as int;
        let available = input.len() - index;
        let first = byte_order.spec_read_u16(input[i], input[i + 1]);
        let second = if available >= 4 {
            byte_order.spec_read_u16(input[i + 2], input[i + 3])
        } else {
            0
        };
        spec_decode_utf16_pair(charset, index, 2, available, first, second)
    }
}

/// Encoding `ch` as UTF-16 code units at `index` of an output of `output_len` units.
pub open spec fn spec_encode_utf16_units(ch: char, output_len: usize, index: usize) -> CharsetEncodeResult<
    Seq<u16>,
> {
    let charset = Charset::spec_utf_16();
    if index > output_len {
        Err(CharsetEncodeError::spec_buffer_too_small(charset, index))
    } else if output_len - index < spec_utf16_units_of(ch).len() {
        Err(CharsetEncodeError::spec_buffer_too_small(charset, output_len))
    } else {
        Ok(spec_utf16_units_of(ch))
    }
}

/// Encoding `ch` as byte-serialized UTF-16 at `index` of an output of `output_len` bytes.
pub open spec fn spec_encode_utf16_bytes(
    ch: char,
    output_len: usize,
    byte_order: ByteOrder,
    index: usize,
) -> CharsetEncodeResult<Seq<u8>> {
    let charset = Charset::spec_from_utf16_byte_order(byte_order);
    if index > output_len {
        Err(CharsetEncodeError::spec_buffer_too_small(charset, index))
    } else if output_len - index < 2 * spec_utf16_units_of(ch).len() {
        Err(CharsetEncodeError::spec_buffer_too_small(charset, output_len))
    } else {
        Ok(spec_utf16_bytes_of(ch, byte_order))
    }
}

/// Decodes the character held by `first` and, for a high surrogate, `second`.
fn decode_pair(
    charset: Charset,
    index: usize,
    unit_len: usize,
    available: usize,
    first: u16,
    second: u16,
) -> (r: CharsetDecodeResult<DecodeStatus>)
    requires
        unit_len == 1 || unit_len == 2,
        index + unit_len <= usize::MAX,
    ensures
        r == spec_decode_utf16_pair(charset, index, unit_len, available as int, first, second),
{
    if Utf16::is_high_surrogate(first) {
        if available < 2 * unit_len {
            return Ok(
                DecodeStatus::NeedMore { required: index.saturating_add(2 * unit_len), available },
            );
        }
        match Utf16::compose_pair(first, second) {
            Some(code_point) => {
                proof {
                    crate::charset::lemma_compose_then_split(first, second);
                }
                match Unicode::to_char(code_point) {
                    Some(ch) => {
                        proof {
                            vstd::utf8::char_u32_cast(ch, code_point);
                        }
                        Ok(DecodeStatus::Complete { value: ch, consumed: 2 * unit_len })
                    },
                    None => Err(CharsetDecodeError::malformed_sequence(charset, index + unit_len)),
                }
            },
            None => Err(CharsetDecodeError::malformed_sequence(charset, index + unit_len)),
        }
    } else if Utf16::is_low_surrogate(first) {
        Err(CharsetDecodeError::malformed_sequence(charset, index))
    } else {
        match Unicode::to_char(first as u32) {
            Some(ch) => {
                proof {
                    vstd::utf8::char_u32_cast(ch, first as u32);
                }
                Ok(DecodeStatus::Complete { value: ch, consumed: unit_len })
            },
            None => Err(CharsetDecodeError::malformed_sequence(charset, index)),
        }
    }
}

/// Decodes the first UTF-16 character from a `u16` prefix starting at `index`.
pub fn decode_units_prefix(input: &[u16], index: usize) -> (r: CharsetDecodeResult<DecodeStatus>)
    ensures
        r == spec_decode_utf16_units(input@, index),
{
    if index > input.len() {
        return Err(CharsetDecodeError::malformed_sequence(Charset::utf_16(), index));
    }
    if index == input.len() {
        return Ok(DecodeStatus::NeedMore { required: index.saturating_add(1), available: 0 });
    }
    let available = input.len() - index;
    let second: u16 = if available >= 2 {
        input[index + 1]
    } else {
        0
    };
    decode_pair(Charset::utf_16(), index, 1, available, input[index], second)
}

/// Encodes one character into UTF-16 code units at `index` of `output`.
pub fn encode_units_char(ch: char, output: &mut [u16], index: usize) -> (r: CharsetEncodeResult<
    usize,
>)
    ensures
        match spec_encode_utf16_units(ch, old(output)@.len() as usize, index) {
            Ok(units) => r == Ok::<usize, CharsetEncodeError>(units.len() as usize)
                && final(output)@ == splice(old(output)@, index as int, units),
            Err(e) => r == Err::<usize, CharsetEncodeError>(e) && final(output)@ == old(output)@,
        },
{
    if index > output.len() {
        return Err(CharsetEncodeError::buffer_too_small(Charset::utf_16(), index));
    }
    let length = Utf16::unit_len(ch);
    let available = output.len() - index;
    if available < length {
        return Err(CharsetEncodeError::buffer_too_small(Charset::utf_16(), output.len()));
    }
    let code_point = ch as u32;
    if length == 1 {
        output[index] = code_point as u16;
    } else {
        match Utf16::high_surrogate(code_point) {
            Some(high) => {
                output[index] = high;
            },
            None => {},
        }
        match Utf16::low_surrogate(code_point) {
            Some(low) => {
                output[index + 1] = low;
            },
            None => {},
        }
        proof {
            vstd::utf8::char_is_scalar(ch);
        }
    }
    assert(output@ =~= splice(old(output)@, index as int, spec_utf16_units_of(ch)));
    Ok(length)
}

/// Decodes the first UTF-16 character from a byte prefix starting at `index`, reading
/// units in `byte_order`.
pub fn decode_bytes_prefix(input: &[u8], index: usize, byte_order: ByteOrder) -> (r:
    CharsetDecodeResult<DecodeStatus>)
    ensures
        r == spec_decode_utf16_bytes(input@, index, byte_order),
{
    let charset = Charset::from_utf16_byte_order(byte_order);
    if index > input.len() {
        return Err(CharsetDecodeError::malformed_sequence(charset, index));
    }
    let available = input.len() - index;
    if available < 2 {
        return Ok(DecodeStatus::NeedMore { required: index.saturating_add(2), available });
    }
    let first = byte_order.read_u16(&input[index..input.len()]);
    let second: u16 = if available >= 4 {
        byte_order.read_u16(&input[index + 2..input.len()])
    } else {
        0
    };
    decode_pair(charset, index, 2, available, first, second)
}

/// Encodes one character into byte-serialized UTF-16 at `index` of `output`, writing
/// units in `byte_order`.
pub fn encode_bytes_char(ch: char, output: &mut [u8], byte_order: ByteOrder, index: usize) -> (r:
    CharsetEncodeResult<usize>)
    ensures
        match spec_encode_utf16_bytes(ch, old(output)@.len() as usize, byte_order, index) {
            Ok(units) => r == Ok::<usize, CharsetEncodeError>(units.len() as usize)
                && final(output)@ == splice(old(output)@, index as int, units),
            Err(e) => r == Err::<usize, CharsetEncodeError>(e) && final(output)@ == old(output)@,
        },
{
    let charset = Charset::from_utf16_byte_order(byte_order);
    if index > output.len() {
        return Err(CharsetEncodeError::buffer_too_small(charset, index));
    }
    let required = Utf16::unit_len(ch) * 2;
    let available = output.len() - index;
    if available < required {
        return Err(CharsetEncodeError::buffer_too_small(charset, output.len()));
    }
    let mut units: [u16; 2] = [0u16; 2];
    let unit_count = match encode_units_char(ch, &mut units, 0) {
        Ok(n) => n,
        Err(e) => return Err(e),
    };
    assert(units@.subrange(0, unit_count as int) =~= spec_utf16_units_of(ch));
    let mut unit_index: usize = 0;
    while unit_index < unit_count
        invariant
            unit_count == spec_utf16_units_of(ch).len(),
            unit_count <= 2,
            units@.subrange(0, unit_count as int) == spec_utf16_units_of(ch),
            index + 2 * unit_count <= old(output)@.len(),
            index + 2 * unit_count <= usize::MAX,
            output@.len() == old(output)@.len(),
            unit_index <= unit_count,
            output@ == splice(
                old(output)@,
                index as int,
                if unit_index == 0 {
                    Seq::<u8>::empty()
                } else if unit_index == 1 {
                    byte_order.spec_u16_bytes(units@[0])
                } else {
                    byte_order.spec_u16_bytes(units@[0]) + byte_order.spec_u16_bytes(units@[1])
                },
            ),
        decreases unit_count - unit_index,
    {
        let ghost before = output@;
        let bytes = byte_order.u16_bytes(units[unit_index]);
        let offset = index + unit_index * 2;
        output[offset] = bytes[0];
        output[offset + 1] = bytes[1];
        unit_index = unit_index + 1;
        assert(output@ =~= splice(
            old(output)@,
            index as int,
            if unit_index == 1 {
                byte_order.spec_u16_bytes(units@[0])
            } else {
                byte_order.spec_u16_bytes(units@[0]) + byte_order.spec_u16_bytes(units@[1])
            },
        ));
    }
    Ok(required)
}

/// Decoding the UTF-16 code units of a character, wherever they stand and whatever
/// follows them, gives back that character and its unit count.
pub proof fn lemma_utf16_units_encode_then_decode(ch: char, input: Seq<u16>, index: usize)
    requires
        index + spec_utf16_units_of(ch).len() <= input.len(),
        input.subrange(index as int, index + spec_utf16_units_of(ch).len()) == spec_utf16_units_of(
            ch,
        ),
    ensures
        spec_decode_utf16_units(input, index) == Ok::<DecodeStatus, CharsetDecodeError>(
            DecodeStatus::Complete { value: ch, consumed: spec_utf16_units_of(ch).len() as usize },
        ),
{
    let units = spec_utf16_units_of(ch);
    vstd::utf8::char_is_scalar(ch);
    assert(input[index as int] == units[0]) by {
        assert(input.subrange(index as int, index + units.len())[0] == input[index as int]);
    }
    if units.len() == 2 {
        assert(input[index + 1] == units[1]) by {
            assert(input.subrange(index as int, index + units.len())[1] == input[index + 1]);
        }
        crate::charset::lemma_split_then_compose(ch as u32);
        vstd::utf8::char_u32_cast(ch, spec_compose_pair(units[0], units[1]));
    } else {
        vstd::utf8::char_u32_cast(ch, units[0] as u32);
    }
}

/// Decoding the byte-serialized UTF-16 encoding of a character, in the byte order it was
/// written in, gives back that character and its byte count.
pub proof fn lemma_utf16_bytes_encode_then_decode(
    ch: char,
    byte_order: ByteOrder,
    input: Seq<u8>,
    index: usize,
)
    requires
        index + spec_utf16_bytes_of(ch, byte_order).len() <= input.len(),
        input.subrange(index as int, index + spec_utf16_bytes_of(ch, byte_order).len())
            == spec_utf16_bytes_of(ch, byte_order),
    ensures
        spec_decode_utf16_bytes(input, index, byte_order) == Ok::<DecodeStatus, CharsetDecodeError>(
            DecodeStatus::Complete {
                value: ch,
                consumed: spec_utf16_bytes_of(ch, byte_order).len() as usize,
            },
        ),
{
    let units = spec_utf16_units_of(ch);
    let bytes = spec_utf16_bytes_of(ch, byte_order);
    let i = index as int;
    vstd::utf8::char_is_scalar(ch);
    lemma_u16_bytes_then_read(byte_order, units[0]);
    assert forall|k: int| 0 <= k < bytes.len() implies input[i + k] == bytes[k] by {
        assert(input.subrange(i, i + bytes.len())[k] == input[i + k]);
    }
    let b0 = byte_order.spec_u16_bytes(units[0]);
    assert(bytes[0] == b0[0] && bytes[1] == b0[1]);
    assert(input[i] == bytes[0] && input[i + 1] == bytes[1]);
    assert(byte_order.spec_read_u16(input[i], input[i + 1]) == units[0]);
    if units.len() == 2 {
        let b1 = byte_order.spec_u16_bytes(units[1]);
        assert(bytes[2] == b1[0] && bytes[3] == b1[1]);
        lemma_u16_bytes_then_read(byte_order, units[1]);
        assert(input[i + 2] == bytes[2]);
        assert(input[i + 3] == bytes[3]);
        assert(byte_order.spec_read_u16(input[i + 2], input[i + 3]) == units[1]);
        crate::charset::lemma_split_then_compose(ch as u32);
        vstd::utf8::char_u32_cast(ch, spec_compose_pair(units[0], units[1]));
    } else {
        vstd::utf8::char_u32_cast(ch, units[0] as u32);
    }
}

} // verus!
