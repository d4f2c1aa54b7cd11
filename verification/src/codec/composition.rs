use vstd::prelude::*;

use super::charset_codec::CharsetCodec;
use super::charset_converter::{spec_convert_loop, spec_emit, spec_write_char, CharsetConverter};
use super::charset_decoder::{
    is_malformed_kind, lemma_decoder_convert_counts, spec_decode_run, spec_malformed_skip,
    CharsetDecoder,
};
use super::charset_encoder::{
    lemma_encoder_convert_counts, spec_encode_run, spec_encode_step,
    CharsetEncoder,
};
use super::coder_progress::CoderProgress;
use super::decode_status::DecodeStatus;
use super::malformed_action::MalformedAction;
use super::resume::lemma_decode_run_shift;
use super::unmappable_action::UnmappableAction;

verus! {

/// A decoder run that succeeds with some output room continues, with at least as much
/// room or with room for every remaining unit, exactly as a run started where it stopped
/// with the characters it had written.
proof fn lemma_decode_run_widens<C: CharsetCodec>(
    codec: C,
    action: MalformedAction,
    replacement: char,
    input: Seq<C::Unit>,
    input_index: usize,
    output_index: usize,
    output_len: usize,
    wide_index: usize,
    wide_len: usize,
    cursor: usize,
    chars: Seq<char>,
)
    requires
        input_index <= cursor <= input.len() <= usize::MAX,
        output_len - output_index <= wide_len - wide_index || wide_index + chars.len() + (
        input.len() - cursor) <= wide_len,
    ensures
        ({
            let (res, out) = spec_decode_run(
                codec,
                action,
                replacement,
                input,
                input_index,
                output_index,
                output_len,
                cursor,
                chars,
            );
            res matches Ok(p) ==> spec_decode_run(
                codec,
                action,
                replacement,
                input,
                input_index,
                wide_index,
                wide_len,
                cursor,
                chars,
            ) == spec_decode_run(
                codec,
                action,
                replacement,
                input,
                input_index,
                wide_index,
                wide_len,
                (input_index + p.spec_read()) as usize,
                out,
            )
        }),
    decreases input.len() - cursor,
{
    broadcast use super::coder_progress::lemma_progress_parts;

    if cursor < input.len() && output_index + chars.len() < output_len {
        codec.lemma_decode_one_progress(input, cursor);
        match codec.spec_decode_one(input, cursor) {
            Ok(DecodeStatus::Complete { value, consumed }) => {
                lemma_decode_run_widens(
                    codec,
                    action,
                    replacement,
                    input,
                    input_index,
                    output_index,
                    output_len,
                    wide_index,
                    wide_len,
                    (cursor + consumed) as usize,
                    chars.push(value),
                );
            },
            Ok(DecodeStatus::NeedMore { .. }) => {},
            Err(e) => {
                if is_malformed_kind(e.spec_kind()) {
                    let skip = spec_malformed_skip(
                        cursor as int,
                        input.len() as int,
                        e.spec_index() as int,
                    );
                    match action {
                        MalformedAction::Report => {},
                        MalformedAction::Ignore => {
                            lemma_decode_run_widens(
                                codec,
                                action,
                                replacement,
                                input,
                                input_index,
                                output_index,
                                output_len,
                                wide_index,
                                wide_len,
                                (cursor + skip) as usize,
                                chars,
                            );
                        },
                        MalformedAction::Replace => {
                            lemma_decode_run_widens(
                                codec,
                                action,
                                replacement,
                                input,
                                input_index,
                                output_index,
                                output_len,
                                wide_index,
                                wide_len,
                                (cursor + skip) as usize,
                                chars.push(replacement),
                            );
                        },
                    }
                }
            },
        }
    }
}

/// An encoder run over `head` that completes continues, over `head + tail`, exactly as a
/// run started at the end of `head` with the units it had written.
proof fn lemma_encode_run_prefix<C: CharsetCodec>(
    codec: C,
    action: UnmappableAction,
    replacement_units: Seq<C::Unit>,
    head: Seq<char>,
    tail: Seq<char>,
    input_index: usize,
    output_index: usize,
    output_len: usize,
    cursor: usize,
    units: Seq<C::Unit>,
)
    requires
        input_index <= cursor <= head.len(),
        head.len() + tail.len() <= usize::MAX,
        output_index + units.len() <= output_len,
    ensures
        ({
            let (res, out) = spec_encode_run(
                codec,
                action,
                replacement_units,
                head,
                input_index,
                output_index,
                output_len,
                cursor,
                units,
            );
            res matches Ok(p) ==> (p.spec_status() is Complete ==> spec_encode_run(
                codec,
                action,
                replacement_units,
                head + tail,
                input_index,
                output_index,
                output_len,
                cursor,
                units,
            ) == spec_encode_run(
                codec,
                action,
                replacement_units,
                head + tail,
                input_index,
                output_index,
                output_len,
                head.len() as usize,
                out,
            ))
        }),
    decreases head.len() - cursor,
{
    broadcast use super::coder_progress::lemma_progress_parts;

    let out_cursor = (output_index + units.len()) as usize;
    if cursor < head.len() {
        let ch = head[cursor as int];
        assert((head + tail)[cursor as int] == ch);
        codec.lemma_encode_one_fits(ch, output_len, out_cursor);
        let step = spec_encode_step(
            codec,
            action,
            replacement_units,
            ch,
            cursor,
            output_len,
            out_cursor,
        );
        if let Ok(s) = step {
            if out_cursor + s.len() <= output_len {
                lemma_encode_run_prefix(
                    codec,
                    action,
                    replacement_units,
                    head,
                    tail,
                    input_index,
                    output_index,
                    output_len,
                    (cursor + 1) as usize,
                    units + s,
                );
            }
        }
    }
}

/// Encoding one more character: when encoding `done` completes with `units`, and writing
/// `ch` alone after those units completes with `step`, encoding `done` followed by `ch`
/// completes with `units + step`.
proof fn lemma_encode_push<C: CharsetCodec>(
    encoder: CharsetEncoder<C>,
    done: Seq<char>,
    ch: char,
    output_len: usize,
    output_index: usize,
    units: Seq<C::Unit>,
)
    requires
        done.len() + 1 <= usize::MAX,
        output_index <= output_len,
        encoder.spec_convert(done, 0, output_len, output_index) == (
            Ok::<CoderProgress, crate::error::CharsetEncodeError>(
                CoderProgress::spec_complete(done.len() as usize, units.len() as usize),
            ),
            units,
        ),
        ({
            let (res, _) = spec_write_char(
                encoder,
                ch,
                output_len,
                (output_index + units.len()) as usize,
            );
            res matches Ok(p) && p.spec_status() is Complete
        }),
    ensures
        ({
            let step = spec_write_char(
                encoder,
                ch,
                output_len,
                (output_index + units.len()) as usize,
            ).1;
            encoder.spec_convert(done.push(ch), 0, output_len, output_index) == (
                Ok::<CoderProgress, crate::error::CharsetEncodeError>(
                    CoderProgress::spec_complete(
                        (done.len() + 1) as usize,
                        (units.len() + step.len()) as usize,
                    ),
                ),
                units + step,
            )
        }),
{
    broadcast use super::coder_progress::lemma_progress_parts;

    reveal_with_fuel(spec_encode_run, 2);
    let codec = encoder.spec_codec();
    let action = encoder.spec_unmappable_action();
    let replacement_units = encoder.spec_replacement_units();
    lemma_encoder_convert_counts(encoder, done, 0, output_len, output_index);
    let at = (output_index + units.len()) as usize;
    lemma_encoder_convert_counts(encoder, seq![ch], 0, output_len, at);
    assert(done.push(ch) =~= done + seq![ch]);
    lemma_encode_run_prefix(
        codec,
        action,
        replacement_units,
        done,
        seq![ch],
        0,
        output_index,
        output_len,
        0,
        Seq::empty(),
    );
    codec.lemma_encode_one_fits(ch, output_len, at);
    let step = spec_encode_step(codec, action, replacement_units, ch, 0, output_len, at);
    assert(step == spec_encode_step(
        codec,
        action,
        replacement_units,
        ch,
        done.len() as usize,
        output_len,
        at,
    ));
    assert(Seq::<C::Unit>::empty() + step->Ok_0 =~= step->Ok_0);
}

/// Writing a batch of decoded characters one by one: when encoding `done` followed by the
/// first `k` characters of `batch` completes with `units`, and the batch is written to
/// the end, encoding `done + batch` completes with all the units written, and no
/// character is left pending.
proof fn lemma_emit_encodes<E: CharsetCodec>(
    encoder: CharsetEncoder<E>,
    batch: Seq<char>,
    k: int,
    output_len: usize,
    output_index: usize,
    read: usize,
    pending: Option<char>,
    units: Seq<E::Unit>,
    done: Seq<char>,
)
    requires
        0 <= k <= batch.len(),
        output_index <= output_len,
        done.len() + batch.len() <= usize::MAX,
        encoder.spec_convert(done + batch.subrange(0, k), 0, output_len, output_index) == (
            Ok::<CoderProgress, crate::error::CharsetEncodeError>(
                CoderProgress::spec_complete((done.len() + k) as usize, units.len() as usize),
            ),
            units,
        ),
    ensures
        ({
            let (stop, next_pending, next_units) = spec_emit(
                encoder,
                batch,
                k,
                output_len,
                output_index,
                read,
                pending,
                units,
            );
            &&& stop matches Some(Ok(p)) ==> p.spec_status() is NeedOutput
            &&& stop is None ==> {
                &&& encoder.spec_convert(done + batch, 0, output_len, output_index) == (
                    Ok::<CoderProgress, crate::error::CharsetEncodeError>(
                        CoderProgress::spec_complete(
                            (done.len() + batch.len()) as usize,
                            next_units.len() as usize,
                        ),
                    ),
                    next_units,
                )
                &&& k < batch.len() ==> next_pending is None
                &&& k == batch.len() ==> next_pending == pending
            }
        }),
    decreases batch.len() - k,
{
    broadcast use super::coder_progress::lemma_progress_parts;

    if k < batch.len() {
        let ch = batch[k];
        let at = (output_index + units.len()) as usize;
        let (res, step) = spec_write_char(encoder, ch, output_len, at);
        lemma_encoder_convert_counts(encoder, seq![ch], 0, output_len, at);
        if let Ok(p) = res {
            if !(p.spec_status() is NeedOutput) {
                assert((done + batch.subrange(0, k)).push(ch) =~= done + batch.subrange(0, k + 1));
                lemma_encode_push(
                    encoder,
                    done + batch.subrange(0, k),
                    ch,
                    output_len,
                    output_index,
                    units,
                );
                lemma_emit_encodes(
                    encoder,
                    batch,
                    k + 1,
                    output_len,
                    output_index,
                    read,
                    None,
                    units + step,
                    done,
                );
            }
        }
    } else {
        assert(batch.subrange(0, k) =~= batch);
    }
}

/// The conversion loop, from a state where decoding the whole input from `input_index`
/// runs on from the current position with the characters `done` already decoded, and
/// encoding `done` completed with `units`, ends complete only with the whole decoding
/// complete and its characters encoded, in one call, to all the units written.
proof fn lemma_loop_composes<D: CharsetCodec, E: CharsetCodec>(
    decoder: CharsetDecoder<D>,
    encoder: CharsetEncoder<E>,
    input: Seq<D::Unit>,
    input_index: usize,
    output_len: usize,
    output_index: usize,
    read: usize,
    units: Seq<E::Unit>,
    done: Seq<char>,
)
    requires
        input.len() <= usize::MAX,
        input_index + read <= input.len(),
        output_index <= output_len,
        done.len() <= read,
        decoder.spec_convert(input, input_index, input.len() as usize, 0) == spec_decode_run(
            decoder.spec_codec(),
            decoder.spec_malformed_action(),
            decoder.spec_replacement(),
            input,
            input_index,
            0,
            input.len() as usize,
            (input_index + read) as usize,
            done,
        ),
        encoder.spec_convert(done, 0, output_len, output_index) == (
            Ok::<CoderProgress, crate::error::CharsetEncodeError>(
                CoderProgress::spec_complete(done.len() as usize, units.len() as usize),
            ),
            units,
        ),
    ensures
        ({
            let (res, pending, out) = spec_convert_loop(
                decoder,
                encoder,
                input,
                input_index,
                output_len,
                output_index,
                read,
                None,
                units,
            );
            let (decoded, chars) = decoder.spec_convert(input, input_index, input.len() as usize, 0);
            res matches Ok(p) ==> (p.spec_status() is Complete ==> {
                &&& pending is None
                &&& decoded == Ok::<CoderProgress, crate::error::CharsetDecodeError>(
                    CoderProgress::spec_complete(p.spec_read(), chars.len() as usize),
                )
                &&& encoder.spec_convert(chars, 0, output_len, output_index) == (
                    Ok::<CoderProgress, crate::error::CharsetEncodeError>(
                        CoderProgress::spec_complete(chars.len() as usize, out.len() as usize),
                    ),
                    out,
                )
            })
        }),
    decreases input.len() - (input_index + read),
{
    broadcast use super::coder_progress::lemma_progress_parts;

    let codec = decoder.spec_codec();
    let action = decoder.spec_malformed_action();
    let replacement = decoder.spec_replacement();
    let len = input.len() as usize;
    let cursor = (input_index + read) as usize;
    if cursor < input.len() {
        lemma_decoder_convert_counts(decoder, input, cursor, 1, 0);
        let (decoded, batch) = decoder.spec_convert(input, cursor, 1, 0);
        if let Ok(q) = decoded {
            let next_read = (read + q.spec_read()) as usize;
            assert(done + batch.subrange(0, 0) =~= done);
            lemma_emit_encodes(
                encoder,
                batch,
                0,
                output_len,
                output_index,
                next_read,
                None,
                units,
                done,
            );
            let (stop, next_pending, next_units) = spec_emit(
                encoder,
                batch,
                0,
                output_len,
                output_index,
                next_read,
                None,
                units,
            );
            if stop is None && !(q.spec_status() is NeedInput) {
                let next_cursor = (cursor + q.spec_read()) as usize;
                assert(done + Seq::<char>::empty() =~= done);
                lemma_decode_run_shift(
                    codec,
                    action,
                    replacement,
                    input,
                    input_index,
                    cursor,
                    0,
                    len,
                    cursor,
                    done,
                    Seq::empty(),
                );
                lemma_decode_run_widens(
                    codec,
                    action,
                    replacement,
                    input,
                    cursor,
                    0,
                    1,
                    done.len() as usize,
                    len,
                    cursor,
                    Seq::empty(),
                );
                lemma_decode_run_shift(
                    codec,
                    action,
                    replacement,
                    input,
                    input_index,
                    cursor,
                    0,
                    len,
                    next_cursor,
                    done,
                    batch,
                );
                lemma_loop_composes(
                    decoder,
                    encoder,
                    input,
                    input_index,
                    output_len,
                    output_index,
                    next_read,
                    next_units,
                    done + batch,
                );
            }
        }
    }
}

/// Converting is decoding, then encoding: a conversion with nothing pending that
/// completes has decoded the whole input, in one call into room for one character per
/// unit, to characters that encoding, in one call, writes as exactly the units the
/// conversion wrote, and it leaves nothing pending.
pub proof fn lemma_converter_decodes_then_encodes<D: CharsetCodec, E: CharsetCodec>(
    converter: CharsetConverter<D, E>,
    input: Seq<D::Unit>,
    input_index: usize,
    output_len: usize,
    output_index: usize,
)
    requires
        converter.spec_pending() is None,
        input.len() <= usize::MAX,
        input_index <= input.len(),
        output_index <= output_len,
    ensures
        ({
            let (res, pending, units) = converter.spec_convert(
                input,
                input_index,
                output_len,
                output_index,
            );
            let (decoded, chars) = converter.spec_decoder().spec_convert(
                input,
                input_index,
                input.len() as usize,
                0,
            );
            res matches Ok(p) ==> (p.spec_status() is Complete ==> {
                &&& pending is None
                &&& decoded == Ok::<CoderProgress, crate::error::CharsetDecodeError>(
                    CoderProgress::spec_complete(p.spec_read(), chars.len() as usize),
                )
                &&& converter.spec_encoder().spec_convert(chars, 0, output_len, output_index) == (
                    Ok::<CoderProgress, crate::error::CharsetEncodeError>(
                        CoderProgress::spec_complete(chars.len() as usize, units.len() as usize),
                    ),
                    units,
                )
            })
        }),
{
    lemma_loop_composes(
        converter.spec_decoder(),
        converter.spec_encoder(),
        input,
        input_index,
        output_len,
        output_index,
        0,
        Seq::empty(),
        Seq::empty(),
    );
}

} // verus!
