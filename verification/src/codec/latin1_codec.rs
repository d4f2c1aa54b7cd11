use vstd::prelude::*;

use super::charset_codec::CharsetCodec;
use super::decode_status::DecodeStatus;
use crate::encoding::Charset;
use crate::error::{CharsetDecodeError, CharsetDecodeResult, CharsetEncodeError, CharsetEncodeResult};

verus! {

/// Decoding one Latin-1 byte at `index`: every byte decodes to the code point of the same
/// value; an index past the end is malformed.
pub open spec fn spec_decode_latin1(input: Seq<u8>, index: usize) -> CharsetDecodeResult<
    DecodeStatus,
> {
    if index > input.len() {
        Err(CharsetDecodeError::spec_malformed_sequence(Charset::spec_iso_8859_1(), index))
    } else if index == input.len() {
        Ok(DecodeStatus::NeedMore { required: index.saturating_add(1), available: 0 })
    } else {
        Ok(DecodeStatus::Complete { value: input[index as int] as char, consumed: 1 })
    }
}

/// Encoding `ch` as one Latin-1 byte at `index` of an output of `output_len` bytes.
pub open spec fn spec_encode_latin1(ch: char, output_len: usize, index: usize) -> CharsetEncodeResult<
    Seq<u8>,
> {
    if index >= output_len {
        Err(CharsetEncodeError::spec_buffer_too_small(Charset::spec_iso_8859_1(), index))
    } else if ch as u32 > 0xff {
        Err(CharsetEncodeError::spec_unmappable_character(Charset::spec_iso_8859_1(), index, ch as u32))
    } else {
        Ok(seq![ch as u32 as u8])
    }
}

/// Single-byte ISO-8859-1 (Latin-1) codec for bytes.
#[derive(Clone, Copy, Debug, Default, Eq, Hash, PartialEq, Structural)]
pub struct Latin1Codec;

impl Latin1Codec {
    /// Returns [`Charset::iso_8859_1`].
    pub fn charset(self) -> (r: Charset)
        ensures
            r == Charset::spec_iso_8859_1(),
    {
        Charset::iso_8859_1()
    }

    /// Returns `1`: one byte per character.
    pub fn max_units_per_char(self) -> (r: usize)
        ensures
            r == 1,
    {
        1
    }
}

impl CharsetCodec for Latin1Codec {
    type Unit = u8;

    open spec fn spec_charset(&self) -> Charset {
        Charset::spec_iso_8859_1()
    }

    open spec fn spec_max_units_per_char(&self) -> usize {
        1
    }

    open spec fn spec_decode_one(&self, input: Seq<u8>, index: usize) -> CharsetDecodeResult<
        DecodeStatus,
    > {
        spec_decode_latin1(input, index)
    }

    open spec fn spec_encode_one(&self, ch: char, output_len: usize, index: usize) -> CharsetEncodeResult<
        Seq<u8>,
    > {
        spec_encode_latin1(ch, output_len, index)
    }

    proof fn lemma_decode_one_progress(&self, input: Seq<u8>, index: usize) {
    }

    proof fn lemma_encode_one_fits(&self, ch: char, output_len: usize, index: usize) {
    }

    proof fn lemma_encode_one_grows(&self, ch: char, output_len: usize, larger: usize, index: usize) {
        broadcast use crate::error::lemma_encode_error_parts;
    }

    proof fn lemma_decode_one_extends(&self, input: Seq<u8>, more: Seq<u8>, index: usize) {
        broadcast use crate::error::lemma_decode_error_parts;

        assert((input + more)[index as int] == input[index as int]);
    }

    proof fn lemma_encode_then_decode(
        &self,
        ch: char,
        output_len: usize,
        index: usize,
        input: Seq<u8>,
        at: usize,
    ) {
        assert(input[at as int] == input.subrange(at as int, at + 1)[0]);
        lemma_latin1_encode_then_decode(ch, input, at);
    }

    fn charset(&self) -> (r: Charset) {
        Charset::iso_8859_1()
    }

    fn max_units_per_char(&self) -> (r: usize) {
        1
    }

    fn decode_one(&self, input: &[u8], index: usize) -> (r: CharsetDecodeResult<DecodeStatus>) {
        if index > input.len() {
            return Err(CharsetDecodeError::malformed_sequence(Charset::iso_8859_1(), index));
        }
        if index == input.len() {
            return Ok(DecodeStatus::NeedMore { required: index.saturating_add(1), available: 0 });
        }
        let value = input[index];
        Ok(DecodeStatus::Complete { value: value as char, consumed: 1 })
    }

    fn encode_one(&self, ch: char, output: &mut [u8], index: usize) -> (r: CharsetEncodeResult<
        usize,
    >) {
        if index >= output.len() {
            return Err(CharsetEncodeError::buffer_too_small(Charset::iso_8859_1(), index));
        }
        let value = ch as u32;
        if value > 0xff {
            return Err(CharsetEncodeError::unmappable_character(Charset::iso_8859_1(), index, value));
        }
        output[index] = value as u8;
        assert(output@ =~= super::charset_codec::splice(
            old(output)@,
            index as int,
            seq![ch as u32 as u8],
        ));
        Ok(1)
    }
}

/// Decoding the byte that Latin-1 encoding wrote for a character gives back that
/// character.
pub proof fn lemma_latin1_encode_then_decode(ch: char, input: Seq<u8>, index: usize)
    requires
        ch as u32 <= 0xff,
        index < input.len(),
        input[index as int] == ch as u32 as u8,
    ensures
        spec_decode_latin1(input, index) == Ok::<DecodeStatus, CharsetDecodeError>(
            DecodeStatus::Complete { value: ch, consumed: 1 },
        ),
{
    vstd::utf8::char_u32_cast(ch, ch as u32);
    assert((ch as u32 as u8) as char == ch);
}

/// Latin-1 encoding is total on its range and rejects the rest: wherever one byte
/// fits, a character up to U+00FF encodes to the single byte of its code point,
/// and any other character is an unmappable character carrying its code point.
pub proof fn lemma_latin1_encoding_range(ch: char, output_len: usize, index: usize)
    requires
        index < output_len,
    ensures
        ch as u32 <= 0xff ==> Latin1Codec.spec_encode_one(ch, output_len, index) == Ok::<
            Seq<u8>,
            CharsetEncodeError,
        >(seq![ch as u32 as u8]),
        ch as u32 > 0xff ==> (Latin1Codec.spec_encode_one(ch, output_len, index) matches Err(e)
            && e.spec_kind() == (crate::error::CharsetEncodeErrorKind::UnmappableCharacter {
            value: ch as u32,
        })),
{
    broadcast use crate::error::lemma_encode_error_parts;

}

} // verus!
