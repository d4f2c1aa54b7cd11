use vstd::prelude::*;

use super::charset_codec::CharsetCodec;
use super::charset_decoder::{
    is_malformed_kind, lemma_decoder_convert_counts, spec_decode_run, spec_malformed_skip,
    CharsetDecoder,
};
use super::charset_encoder::{
    lemma_encoder_convert_counts, spec_encode_run, spec_encode_step, CharsetEncoder,
};
use super::unmappable_action::UnmappableAction;
use super::coder_progress::CoderProgress;
use super::decode_status::DecodeStatus;
use super::malformed_action::MalformedAction;

verus! {

/// `result` with `read` more units read and `written` more units written.
pub open spec fn spec_shift_progress<E>(result: Result<CoderProgress, E>, read: usize, written: usize) -> Result<
    CoderProgress,
    E,
> {
    match result {
        Ok(p) => Ok(
            CoderProgress::spec_new(
                p.spec_status(),
                (p.spec_read() + read) as usize,
                (p.spec_written() + written) as usize,
            ),
        ),
        Err(e) => Err(e),
    }
}

/// A decoder run over `input` that stopped because the input was used up or cut short
/// continues, over `input + more`, exactly as a run started where it stopped with the
/// characters it had written.
proof fn lemma_decode_run_extends<C: CharsetCodec>(
    codec: C,
    action: MalformedAction,
    replacement: char,
    input: Seq<C::Unit>,
    more: Seq<C::Unit>,
    input_index: usize,
    output_index: usize,
    output_len: usize,
    cursor: usize,
    chars: Seq<char>,
)
    requires
        input_index <= cursor <= input.len(),
        input.len() + more.len() <= usize::MAX,
    ensures
        ({
            let (res, out) = spec_decode_run(
                codec,
                action,
                replacement,
                input,
                input_index,
                output_index,
                output_len,
                cursor,
                chars,
            );
            res matches Ok(p) ==> (!(p.spec_status() is NeedOutput) ==> spec_decode_run(
                codec,
                action,
                replacement,
                input + more,
                input_index,
                output_index,
                output_len,
                cursor,
                chars,
            ) == spec_decode_run(
                codec,
                action,
                replacement,
                input + more,
                input_index,
                output_index,
                output_len,
                (input_index + p.spec_read()) as usize,
                out,
            ))
        }),
    decreases input.len() - cursor,
{
    broadcast use super::coder_progress::lemma_progress_parts;

    let whole = input + more;
    if cursor < input.len() && output_index + chars.len() < output_len {
        codec.lemma_decode_one_progress(input, cursor);
        let decoded = codec.spec_decode_one(input, cursor);
        if !(decoded matches Ok(DecodeStatus::NeedMore { .. })) {
            codec.lemma_decode_one_extends(input, more, cursor);
            match decoded {
                Ok(DecodeStatus::Complete { value, consumed }) => {
                    lemma_decode_run_extends(
                        codec,
                        action,
                        replacement,
                        input,
                        more,
                        input_index,
                        output_index,
                        output_len,
                        (cursor + consumed) as usize,
                        chars.push(value),
                    );
                },
                Ok(DecodeStatus::NeedMore { .. }) => {},
                Err(e) => {
                    if is_malformed_kind(e.spec_kind()) {
                        let skip = spec_malformed_skip(
                            cursor as int,
                            input.len() as int,
                            e.spec_index() as int,
                        );
                        assert(skip == spec_malformed_skip(
                            cursor as int,
                            whole.len() as int,
                            e.spec_index() as int,
                        ));
                        match action {
                            MalformedAction::Report => {},
                            MalformedAction::Ignore => {
                                lemma_decode_run_extends(
                                    codec,
                                    action,
                                    replacement,
                                    input,
                                    more,
                                    input_index,
                                    output_index,
                                    output_len,
                                    (cursor + skip) as usize,
                                    chars,
                                );
                            },
                            MalformedAction::Replace => {
                                lemma_decode_run_extends(
                                    codec,
                                    action,
                                    replacement,
                                    input,
                                    more,
                                    input_index,
                                    output_index,
                                    output_len,
                                    (cursor + skip) as usize,
                                    chars.push(replacement),
                                );
                            },
                        }
                    }
                },
            }
        }
    }
}

/// A decoder run that started at `start` and has written `prefix + chars` runs on as a
/// run that starts at `cursor`, writes after `prefix`, and has written `chars`: the same
/// characters after `prefix`, and the same result with the units read since `start` and
/// the characters of `prefix` added to its counts.
pub(crate) proof fn lemma_decode_run_shift<C: CharsetCodec>(
    codec: C,
    action: MalformedAction,
    replacement: char,
    input: Seq<C::Unit>,
    start: usize,
    resume: usize,
    output_index: usize,
    output_len: usize,
    cursor: usize,
    prefix: Seq<char>,
    chars: Seq<char>,
)
    requires
        start <= resume <= cursor,
        output_index + prefix.len() + chars.len() <= output_len,
    ensures
        ({
            let (res, out) = spec_decode_run(
                codec,
                action,
                replacement,
                input,
                resume,
                (output_index + prefix.len()) as usize,
                output_len,
                cursor,
                chars,
            );
            spec_decode_run(
                codec,
                action,
                replacement,
                input,
                start,
                output_index,
                output_len,
                cursor,
                prefix + chars,
            ) == (
                spec_shift_progress(res, (resume - start) as usize, prefix.len() as usize),
                prefix + out,
            )
        }),
    decreases input.len() - cursor,
{
    broadcast use super::coder_progress::lemma_progress_parts;

    let shifted_index = (output_index + prefix.len()) as usize;
    if cursor < input.len() && input.len() <= usize::MAX && shifted_index + chars.len()
        < output_len {
        match codec.spec_decode_one(input, cursor) {
            Ok(DecodeStatus::Complete { value, consumed }) => {
                if 1 <= consumed && cursor + consumed <= input.len() {
                    assert((prefix + chars).push(value) =~= prefix + chars.push(value));
                    lemma_decode_run_shift(
                        codec,
                        action,
                        replacement,
                        input,
                        start,
                        resume,
                        output_index,
                        output_len,
                        (cursor + consumed) as usize,
                        prefix,
                        chars.push(value),
                    );
                }
            },
            Ok(DecodeStatus::NeedMore { .. }) => {},
            Err(e) => {
                if is_malformed_kind(e.spec_kind()) {
                    let skip = spec_malformed_skip(
                        cursor as int,
                        input.len() as int,
                        e.spec_index() as int,
                    );
                    match action {
                        MalformedAction::Report => {},
                        MalformedAction::Ignore => {
                            lemma_decode_run_shift(
                                codec,
                                action,
                                replacement,
                                input,
                                start,
                                resume,
                                output_index,
                                output_len,
                                (cursor + skip) as usize,
                                prefix,
                                chars,
                            );
                        },
                        MalformedAction::Replace => {
                            assert((prefix + chars).push(replacement) =~= prefix + chars.push(
                                replacement,
                            ));
                            lemma_decode_run_shift(
                                codec,
                                action,
                                replacement,
                                input,
                                start,
                                resume,
                                output_index,
                                output_len,
                                (cursor + skip) as usize,
                                prefix,
                                chars.push(replacement),
                            );
                        },
                    }
                }
            },
        }
    }
}

/// Decoding can resume when more input arrives: when a decoder call over `first` is
/// complete or asks for more input, decoding `first + more` from the same place in one
/// call writes the characters of that call followed by those of a second call that
/// starts where the first stopped reading and writing, and reports that second call's
/// result with the first call's counts added.
pub proof fn lemma_decoder_resumes<C: CharsetCodec>(
    decoder: CharsetDecoder<C>,
    first: Seq<C::Unit>,
    more: Seq<C::Unit>,
    input_index: usize,
    output_len: usize,
    output_index: usize,
)
    requires
        first.len() + more.len() <= usize::MAX,
    ensures
        ({
            let (res, chars) = decoder.spec_convert(first, input_index, output_len, output_index);
            res matches Ok(p) ==> (!(p.spec_status() is NeedOutput) ==> {
                let (rest, rest_chars) = decoder.spec_convert(
                    first + more,
                    (input_index + p.spec_read()) as usize,
                    output_len,
                    (output_index + p.spec_written()) as usize,
                );
                decoder.spec_convert(first + more, input_index, output_len, output_index) == (
                    spec_shift_progress(rest, p.spec_read(), p.spec_written()),
                    chars + rest_chars,
                )
            })
        }),
{
    broadcast use super::coder_progress::lemma_progress_parts;

    let codec = decoder.spec_codec();
    let action = decoder.spec_malformed_action();
    let replacement = decoder.spec_replacement();
    lemma_decoder_convert_counts(decoder, first, input_index, output_len, output_index);
    let (res, chars) = decoder.spec_convert(first, input_index, output_len, output_index);
    if let Ok(p) = res {
        if !(p.spec_status() is NeedOutput) {
            lemma_decode_run_extends(
                codec,
                action,
                replacement,
                first,
                more,
                input_index,
                output_index,
                output_len,
                input_index,
                Seq::empty(),
            );
            let resume = (input_index + p.spec_read()) as usize;
            assert(chars + Seq::<char>::empty() =~= chars);
            lemma_decode_run_shift(
                codec,
                action,
                replacement,
                first + more,
                input_index,
                resume,
                output_index,
                output_len,
                resume,
                chars,
                Seq::empty(),
            );
        }
    }
}


/// An encoder run into an output of `output_len` units continues, into a larger output,
/// exactly as a run started where it stopped with the units it had written.
pub(crate) proof fn lemma_encode_run_grows<C: CharsetCodec>(
    codec: C,
    action: UnmappableAction,
    replacement_units: Seq<C::Unit>,
    input: Seq<char>,
    input_index: usize,
    output_index: usize,
    output_len: usize,
    larger: usize,
    cursor: usize,
    units: Seq<C::Unit>,
)
    requires
        input_index <= cursor <= input.len() <= usize::MAX,
        output_len <= larger,
        output_index + units.len() <= output_len,
    ensures
        ({
            let (res, out) = spec_encode_run(
                codec,
                action,
                replacement_units,
                input,
                input_index,
                output_index,
                output_len,
                cursor,
                units,
            );
            res matches Ok(p) ==> spec_encode_run(
                codec,
                action,
                replacement_units,
                input,
                input_index,
                output_index,
                larger,
                cursor,
                units,
            ) == spec_encode_run(
                codec,
                action,
                replacement_units,
                input,
                input_index,
                output_index,
                larger,
                (input_index + p.spec_read()) as usize,
                out,
            )
        }),
    decreases input.len() - cursor,
{
    broadcast use super::coder_progress::lemma_progress_parts;
    broadcast use crate::error::lemma_encode_error_parts;

    let out_cursor = (output_index + units.len()) as usize;
    if cursor < input.len() {
        let ch = input[cursor as int];
        codec.lemma_encode_one_fits(ch, output_len, out_cursor);
        let encoded = codec.spec_encode_one(ch, output_len, out_cursor);
        if !(encoded matches Err(e) && e.spec_kind() is BufferTooSmall) {
            codec.lemma_encode_one_grows(ch, output_len, larger, out_cursor);
            let step = spec_encode_step(
                codec,
                action,
                replacement_units,
                ch,
                cursor,
                output_len,
                out_cursor,
            );
            if let Ok(s) = step {
                if out_cursor + s.len() <= output_len {
                    lemma_encode_run_grows(
                        codec,
                        action,
                        replacement_units,
                        input,
                        input_index,
                        output_index,
                        output_len,
                        larger,
                        (cursor + 1) as usize,
                        units + s,
                    );
                }
            }
        }
    }
}

/// An encoder run that started at `start` and has written `prefix + units` runs on as a
/// run that starts at `resume`, writes after `prefix`, and has written `units`: the same
/// units after `prefix`, and the same result with the characters read since `start` and
/// the units of `prefix` added to its counts.
proof fn lemma_encode_run_shift<C: CharsetCodec>(
    codec: C,
    action: UnmappableAction,
    replacement_units: Seq<C::Unit>,
    input: Seq<char>,
    start: usize,
    resume: usize,
    output_index: usize,
    output_len: usize,
    cursor: usize,
    prefix: Seq<C::Unit>,
    units: Seq<C::Unit>,
)
    requires
        start <= resume <= cursor,
        output_index + prefix.len() + units.len() <= output_len,
    ensures
        ({
            let (res, out) = spec_encode_run(
                codec,
                action,
                replacement_units,
                input,
                resume,
                (output_index + prefix.len()) as usize,
                output_len,
                cursor,
                units,
            );
            spec_encode_run(
                codec,
                action,
                replacement_units,
                input,
                start,
                output_index,
                output_len,
                cursor,
                prefix + units,
            ) == (
                spec_shift_progress(res, (resume - start) as usize, prefix.len() as usize),
                prefix + out,
            )
        }),
    decreases input.len() - cursor,
{
    broadcast use super::coder_progress::lemma_progress_parts;

    let out_cursor = (output_index + prefix.len() + units.len()) as usize;
    assert(out_cursor == ((output_index + prefix.len()) as usize + units.len()) as usize);
    assert(out_cursor == (output_index + (prefix + units).len()) as usize);
    if cursor < input.len() && input.len() <= usize::MAX {
        let ch = input[cursor as int];
        let step = spec_encode_step(
            codec,
            action,
            replacement_units,
            ch,
            cursor,
            output_len,
            out_cursor,
        );
        if let Ok(s) = step {
            if out_cursor + s.len() <= output_len {
                assert((prefix + units) + s =~= prefix + (units + s));
                lemma_encode_run_shift(
                    codec,
                    action,
                    replacement_units,
                    input,
                    start,
                    resume,
                    output_index,
                    output_len,
                    (cursor + 1) as usize,
                    prefix,
                    units + s,
                );
            }
        }
    }
}

/// Encoding can resume when more output room arrives: when an encoder call into an
/// output of `output_len` units succeeds, the same call into a `larger` output writes the
/// units of that call followed by those of a second call into the larger output that
/// starts where the first stopped reading and writing, and reports that second call's
/// result with the first call's counts added.
pub proof fn lemma_encoder_resumes<C: CharsetCodec>(
    encoder: CharsetEncoder<C>,
    input: Seq<char>,
    input_index: usize,
    output_len: usize,
    larger: usize,
    output_index: usize,
)
    requires
        input.len() <= usize::MAX,
        output_len <= larger,
    ensures
        ({
            let (res, units) = encoder.spec_convert(input, input_index, output_len, output_index);
            res matches Ok(p) ==> {
                let (rest, rest_units) = encoder.spec_convert(
                    input,
                    (input_index + p.spec_read()) as usize,
                    larger,
                    (output_index + p.spec_written()) as usize,
                );
                encoder.spec_convert(input, input_index, larger, output_index) == (
                    spec_shift_progress(rest, p.spec_read(), p.spec_written()),
                    units + rest_units,
                )
            }
        }),
{
    broadcast use super::coder_progress::lemma_progress_parts;

    let codec = encoder.spec_codec();
    let action = encoder.spec_unmappable_action();
    let replacement_units = encoder.spec_replacement_units();
    lemma_encoder_convert_counts(encoder, input, input_index, output_len, output_index);
    let (res, units) = encoder.spec_convert(input, input_index, output_len, output_index);
    if input_index <= input.len() && output_index > output_len {
        let (rest, rest_units) = encoder.spec_convert(input, input_index, larger, output_index);
        if let Ok(q) = rest {
            super::coder_progress::lemma_progress_from_parts(q);
        }
        assert(units + rest_units =~= rest_units);
    } else if let Ok(p) = res {
        lemma_encode_run_grows(
            codec,
            action,
            replacement_units,
            input,
            input_index,
            output_index,
            output_len,
            larger,
            input_index,
            Seq::empty(),
        );
        let resume = (input_index + p.spec_read()) as usize;
        assert(units + Seq::<C::Unit>::empty() =~= units);
        lemma_encode_run_shift(
            codec,
            action,
            replacement_units,
            input,
            input_index,
            resume,
            output_index,
            larger,
            resume,
            units,
            Seq::empty(),
        );
    }
}

} // verus!
