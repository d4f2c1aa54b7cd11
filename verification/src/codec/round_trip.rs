use vstd::prelude::*;

use super::charset_codec::CharsetCodec;
use super::charset_decoder::{spec_decode_run, CharsetDecoder};
use super::charset_encoder::{lemma_encode_run_counts, spec_encode_run, CharsetEncoder};
use super::coder_progress::CoderProgress;
use super::malformed_action::MalformedAction;
use super::unmappable_action::UnmappableAction;

verus! {

/// Induction step of [`lemma_encoder_then_decoder`]: an encoder run from `cursor`, after
/// `units` were written for the characters before `cursor`, writes units that a decoder
/// run, started where those units end, decodes to the characters the encoder consumed.
proof fn lemma_encode_run_then_decode<C: CharsetCodec>(
    codec: C,
    replacement_units: Seq<C::Unit>,
    decode_action: MalformedAction,
    decode_replacement: char,
    input: Seq<char>,
    output_len: usize,
    decoded_len: usize,
    cursor: usize,
    units: Seq<C::Unit>,
)
    requires
        cursor <= input.len() <= usize::MAX,
        units.len() <= output_len,
    ensures
        ({
            let (res, out) = spec_encode_run(
                codec,
                UnmappableAction::Report,
                replacement_units,
                input,
                0,
                0,
                output_len,
                cursor,
                units,
            );
            res matches Ok(p) ==> {
                &&& p.spec_read() >= cursor
                &&& decoded_len >= p.spec_read() ==> spec_decode_run(
                    codec,
                    decode_action,
                    decode_replacement,
                    out,
                    0,
                    0,
                    decoded_len,
                    units.len() as usize,
                    input.subrange(0, cursor as int),
                ) == (
                    Ok::<CoderProgress, crate::error::CharsetDecodeError>(
                        CoderProgress::spec_complete(out.len() as usize, p.spec_read()),
                    ),
                    input.subrange(0, p.spec_read() as int),
                )
            }
        }),
    decreases input.len() - cursor,
{
    broadcast use super::coder_progress::lemma_progress_parts;
    broadcast use crate::error::lemma_encode_error_parts;

    let out_cursor = units.len() as usize;
    if cursor < input.len() {
        let ch = input[cursor as int];
        codec.lemma_encode_one_fits(ch, output_len, out_cursor);
        match codec.spec_encode_one(ch, output_len, out_cursor) {
            Ok(s) => {
                if out_cursor + s.len() <= output_len {
                    let next = units + s;
                    lemma_encode_run_then_decode(
                        codec,
                        replacement_units,
                        decode_action,
                        decode_replacement,
                        input,
                        output_len,
                        decoded_len,
                        (cursor + 1) as usize,
                        next,
                    );
                    lemma_encode_run_counts(
                        codec,
                        UnmappableAction::Report,
                        replacement_units,
                        input,
                        0,
                        0,
                        output_len,
                        (cursor + 1) as usize,
                        next,
                    );
                    let (res, out) = spec_encode_run(
                        codec,
                        UnmappableAction::Report,
                        replacement_units,
                        input,
                        0,
                        0,
                        output_len,
                        (cursor + 1) as usize,
                        next,
                    );
                    if res is Ok {
                        assert(out.subrange(out_cursor as int, out_cursor + s.len()) =~= s) by {
                            assert forall|j: int| 0 <= j < s.len() implies out.subrange(
                                out_cursor as int,
                                out_cursor + s.len(),
                            )[j] == s[j] by {
                                assert(out.subrange(0, next.len() as int)[out_cursor + j]
                                    == next[out_cursor + j]);
                            }
                        }
                        codec.lemma_encode_then_decode(ch, output_len, out_cursor, out, out_cursor);
                        assert(input.subrange(0, cursor as int).push(ch) =~= input.subrange(
                            0,
                            cursor + 1,
                        ));
                    }
                }
            },
            Err(_) => {},
        }
    }
}

/// With the report policy for unmappable characters, the units an encoder writes decode,
/// through the same codec, to exactly the characters the encoder consumed: whatever
/// `input` and output size, a successful encoding of `input` from its start, decoded
/// from its start into room for as many characters as were consumed, completes having
/// read every unit written and gives back that prefix of `input`.
pub proof fn lemma_encoder_then_decoder<C: CharsetCodec>(
    encoder: CharsetEncoder<C>,
    decoder: CharsetDecoder<C>,
    input: Seq<char>,
    output_len: usize,
    decoded_len: usize,
)
    requires
        decoder.spec_codec() == encoder.spec_codec(),
        encoder.spec_unmappable_action() == UnmappableAction::Report,
        input.len() <= usize::MAX,
    ensures
        ({
            let (res, units) = encoder.spec_convert(input, 0, output_len, 0);
            res matches Ok(p) ==> (decoded_len >= p.spec_read() ==> decoder.spec_convert(
                units,
                0,
                decoded_len,
                0,
            ) == (
                Ok::<CoderProgress, crate::error::CharsetDecodeError>(
                    CoderProgress::spec_complete(units.len() as usize, p.spec_read()),
                ),
                input.subrange(0, p.spec_read() as int),
            ))
        }),
{
    lemma_encode_run_then_decode(
        encoder.spec_codec(),
        encoder.spec_replacement_units(),
        decoder.spec_malformed_action(),
        decoder.spec_replacement(),
        input,
        output_len,
        decoded_len,
        0,
        Seq::empty(),
    );
    assert(input.subrange(0, 0) =~= Seq::<char>::empty());
}

} // verus!
