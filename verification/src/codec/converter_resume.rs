use vstd::prelude::*;

use super::charset_codec::CharsetCodec;
use super::charset_convert_error::CharsetConvertError;
use super::charset_converter::{
    lemma_converter_convert_counts, lemma_emit_counts, spec_convert_loop, spec_emit, spec_resume,
    spec_write_char, CharsetConverter,
};
use super::charset_decoder::{lemma_decoder_convert_counts, CharsetDecoder};
use super::charset_encoder::{lemma_encoder_convert_counts, CharsetEncoder};
use super::coder_progress::{lemma_progress_from_parts, CoderProgress};
use super::resume::{lemma_encode_run_grows, spec_shift_progress};

verus! {

/// `stop` with `read` more units read and `written` more units written.
spec fn spec_shift_stop(
    stop: Option<Result<CoderProgress, CharsetConvertError>>,
    read: usize,
    written: usize,
) -> Option<Result<CoderProgress, CharsetConvertError>> {
    match stop {
        Some(r) => Some(spec_shift_progress(r, read, written)),
        None => None,
    }
}

/// Writing a character that completes into some output completes the same way in a
/// larger output.
proof fn lemma_write_char_grows<E: CharsetCodec>(
    encoder: CharsetEncoder<E>,
    ch: char,
    output_len: usize,
    larger: usize,
    at: usize,
)
    requires
        output_len <= larger,
    ensures
        ({
            let (res, step) = spec_write_char(encoder, ch, output_len, at);
            res matches Ok(p) ==> (p.spec_status() is Complete ==> spec_write_char(
                encoder,
                ch,
                larger,
                at,
            ) == (res, step))
        }),
{
    broadcast use super::coder_progress::lemma_progress_parts;

    let (res, step) = spec_write_char(encoder, ch, output_len, at);
    lemma_encoder_convert_counts(encoder, seq![ch], 0, output_len, at);
    if at <= output_len {
        lemma_encode_run_grows(
            encoder.spec_codec(),
            encoder.spec_unmappable_action(),
            encoder.spec_replacement_units(),
            seq![ch],
            0,
            at,
            output_len,
            larger,
            0,
            Seq::empty(),
        );
        if let Ok(p) = res {
            lemma_progress_from_parts(p);
        }
    }
}

/// Writing a nonempty batch does not depend on which character was pending before.
proof fn lemma_emit_pending<E: CharsetCodec>(
    encoder: CharsetEncoder<E>,
    batch: Seq<char>,
    k: int,
    output_len: usize,
    output_index: usize,
    read: usize,
    pending: Option<char>,
    other: Option<char>,
    units: Seq<E::Unit>,
)
    requires
        0 <= k < batch.len(),
    ensures
        spec_emit(encoder, batch, k, output_len, output_index, read, pending, units) == spec_emit(
            encoder,
            batch,
            k,
            output_len,
            output_index,
            read,
            other,
            units,
        ),
{
}

/// Writing a batch after `prefix + units`, having read `base + read` units, is writing it
/// after `units` from the end of `prefix`, having read `read` units, with `base` and
/// the units of `prefix` added to the counts.
proof fn lemma_emit_shift<E: CharsetCodec>(
    encoder: CharsetEncoder<E>,
    batch: Seq<char>,
    k: int,
    output_len: usize,
    output_index: usize,
    base: usize,
    read: usize,
    pending: Option<char>,
    prefix: Seq<E::Unit>,
    units: Seq<E::Unit>,
)
    requires
        base + read <= usize::MAX,
        output_index + prefix.len() <= usize::MAX,
        prefix.len() + units.len() == 0 || output_index + prefix.len() + units.len()
            <= output_len,
    ensures
        ({
            let (stop, next_pending, out) = spec_emit(
                encoder,
                batch,
                k,
                output_len,
                (output_index + prefix.len()) as usize,
                read,
                pending,
                units,
            );
            spec_emit(
                encoder,
                batch,
                k,
                output_len,
                output_index,
                (base + read) as usize,
                pending,
                prefix + units,
            ) == (spec_shift_stop(stop, base, prefix.len() as usize), next_pending, prefix + out)
        }),
    decreases batch.len() - k,
{
    broadcast use super::coder_progress::lemma_progress_parts;

    if 0 <= k < batch.len() {
        let ch = batch[k];
        let at = (output_index + prefix.len() + units.len()) as usize;
        assert((output_index + (prefix + units).len()) as usize == at);
        assert(((output_index + prefix.len()) as usize + units.len()) as usize == at);
        lemma_encoder_convert_counts(encoder, seq![ch], 0, output_len, at);
        let (res, step) = spec_write_char(encoder, ch, output_len, at);
        assert((prefix + units) + step =~= prefix + (units + step));
        if let Ok(p) = res {
            let next_pending = if p.spec_status() is Complete && p.spec_read() == 1 {
                None
            } else {
                Some(ch)
            };
            if !(p.spec_status() is NeedOutput) {
                lemma_emit_shift(
                    encoder,
                    batch,
                    k + 1,
                    output_len,
                    output_index,
                    base,
                    read,
                    next_pending,
                    prefix,
                    units + step,
                );
            }
        }
    }
}

/// The conversion loop over `prefix + units`, having read `base + read` units, is the
/// loop from `base` more units on, writing after `prefix`, with `base` and the units of
/// `prefix` added to its counts.
proof fn lemma_loop_shift<D: CharsetCodec, E: CharsetCodec>(
    decoder: CharsetDecoder<D>,
    encoder: CharsetEncoder<E>,
    input: Seq<D::Unit>,
    input_index: usize,
    output_len: usize,
    output_index: usize,
    base: usize,
    read: usize,
    pending: Option<char>,
    prefix: Seq<E::Unit>,
    units: Seq<E::Unit>,
)
    requires
        input.len() <= usize::MAX,
        base + read <= usize::MAX,
        input_index + base <= usize::MAX,
        output_index + prefix.len() <= usize::MAX,
        prefix.len() + units.len() == 0 || output_index + prefix.len() + units.len()
            <= output_len,
    ensures
        ({
            let (res, next_pending, out) = spec_convert_loop(
                decoder,
                encoder,
                input,
                (input_index + base) as usize,
                output_len,
                (output_index + prefix.len()) as usize,
                read,
                pending,
                units,
            );
            spec_convert_loop(
                decoder,
                encoder,
                input,
                input_index,
                output_len,
                output_index,
                (base + read) as usize,
                pending,
                prefix + units,
            ) == (spec_shift_progress(res, base, prefix.len() as usize), next_pending, prefix + out)
        }),
    decreases input.len() - (input_index + base + read),
{
    broadcast use super::coder_progress::lemma_progress_parts;

    let cursor = input_index + base + read;
    let shifted_index = (output_index + prefix.len()) as usize;
    if cursor < input.len() {
        lemma_decoder_convert_counts(decoder, input, cursor as usize, 1, 0);
        let (decoded, chars) = decoder.spec_convert(input, cursor as usize, 1, 0);
        if let Ok(q) = decoded {
            let next_read = (read + q.spec_read()) as usize;
            lemma_emit_shift(
                encoder,
                chars,
                0,
                output_len,
                output_index,
                base,
                next_read,
                pending,
                prefix,
                units,
            );
            lemma_emit_counts(
                encoder,
                chars,
                0,
                output_len,
                shifted_index,
                next_read,
                pending,
                units,
            );
            let (stop, next_pending, next_units) = spec_emit(
                encoder,
                chars,
                0,
                output_len,
                shifted_index,
                next_read,
                pending,
                units,
            );
            if stop is None && !(q.spec_status() is NeedInput) && q.spec_read() > 0 && cursor
                + q.spec_read() <= input.len() {
                lemma_loop_shift(
                    decoder,
                    encoder,
                    input,
                    input_index,
                    output_len,
                    output_index,
                    base,
                    next_read,
                    next_pending,
                    prefix,
                    next_units,
                );
            }
        }
    }
}

/// Resuming after `prefix`, having read `base` units, is resuming from `base` more units
/// on and writing after `prefix`, with `base` and the units of `prefix` added to the
/// counts.
proof fn lemma_resume_shift<D: CharsetCodec, E: CharsetCodec>(
    decoder: CharsetDecoder<D>,
    encoder: CharsetEncoder<E>,
    input: Seq<D::Unit>,
    input_index: usize,
    output_len: usize,
    output_index: usize,
    base: usize,
    pending: Option<char>,
    prefix: Seq<E::Unit>,
)
    requires
        input.len() <= usize::MAX,
        input_index + base <= usize::MAX,
        output_index + prefix.len() <= usize::MAX,
        prefix.len() == 0 || output_index + prefix.len() <= output_len,
    ensures
        ({
            let (res, next_pending, out) = spec_resume(
                decoder,
                encoder,
                input,
                (input_index + base) as usize,
                output_len,
                (output_index + prefix.len()) as usize,
                0,
                pending,
                Seq::empty(),
            );
            spec_resume(
                decoder,
                encoder,
                input,
                input_index,
                output_len,
                output_index,
                base,
                pending,
                prefix,
            ) == (spec_shift_progress(res, base, prefix.len() as usize), next_pending, prefix + out)
        }),
{
    broadcast use super::coder_progress::lemma_progress_parts;

    let shifted_index = (output_index + prefix.len()) as usize;
    assert(prefix + Seq::<E::Unit>::empty() =~= prefix);
    match pending {
        Some(ch) => {
            lemma_emit_shift(
                encoder,
                seq![ch],
                0,
                output_len,
                output_index,
                base,
                0,
                Some(ch),
                prefix,
                Seq::empty(),
            );
            lemma_emit_counts(
                encoder,
                seq![ch],
                0,
                output_len,
                shifted_index,
                0,
                Some(ch),
                Seq::empty(),
            );
            let (stop, next_pending, units) = spec_emit(
                encoder,
                seq![ch],
                0,
                output_len,
                shifted_index,
                0,
                Some(ch),
                Seq::empty(),
            );
            if stop is None {
                lemma_loop_shift(
                    decoder,
                    encoder,
                    input,
                    input_index,
                    output_len,
                    output_index,
                    base,
                    0,
                    next_pending,
                    prefix,
                    units,
                );
            }
        },
        None => {
            lemma_loop_shift(
                decoder,
                encoder,
                input,
                input_index,
                output_len,
                output_index,
                base,
                0,
                None,
                prefix,
                Seq::empty(),
            );
        },
    }
}

/// A conversion loop that stops because an output of `output_len` units is full goes on,
/// in a larger output, exactly as a conversion resumed where it stopped, with the
/// character it left pending.
proof fn lemma_loop_grows<D: CharsetCodec, E: CharsetCodec>(
    decoder: CharsetDecoder<D>,
    encoder: CharsetEncoder<E>,
    input: Seq<D::Unit>,
    input_index: usize,
    output_len: usize,
    larger: usize,
    output_index: usize,
    read: usize,
    pending: Option<char>,
    units: Seq<E::Unit>,
)
    requires
        input.len() <= usize::MAX,
        output_len <= larger,
        units.len() == 0 || output_index + units.len() <= output_len,
    ensures
        ({
            let (res, next_pending, out) = spec_convert_loop(
                decoder,
                encoder,
                input,
                input_index,
                output_len,
                output_index,
                read,
                pending,
                units,
            );
            res matches Ok(p) ==> (p.spec_status() is NeedOutput ==> spec_convert_loop(
                decoder,
                encoder,
                input,
                input_index,
                larger,
                output_index,
                read,
                pending,
                units,
            ) == spec_resume(
                decoder,
                encoder,
                input,
                input_index,
                larger,
                output_index,
                p.spec_read(),
                next_pending,
                out,
            ))
        }),
    decreases input.len() - (input_index + read),
{
    broadcast use super::coder_progress::lemma_progress_parts;

    reveal_with_fuel(spec_emit, 2);
    let cursor = input_index + read;
    if cursor < input.len() {
        lemma_decoder_convert_counts(decoder, input, cursor as usize, 1, 0);
        let (decoded, chars) = decoder.spec_convert(input, cursor as usize, 1, 0);
        if let Ok(q) = decoded {
            let next_read = (read + q.spec_read()) as usize;
            let advanced = q.spec_read() > 0 && cursor + q.spec_read() <= input.len();
            if chars.len() == 0 {
                if !(q.spec_status() is NeedInput) && advanced {
                    lemma_loop_grows(
                        decoder,
                        encoder,
                        input,
                        input_index,
                        output_len,
                        larger,
                        output_index,
                        next_read,
                        pending,
                        units,
                    );
                }
            } else {
                let ch = chars[0];
                let at = (output_index + units.len()) as usize;
                lemma_encoder_convert_counts(encoder, seq![ch], 0, output_len, at);
                lemma_write_char_grows(encoder, ch, output_len, larger, at);
                let (res, step) = spec_write_char(encoder, ch, output_len, at);
                if let Ok(w) = res {
                    if w.spec_status() is NeedOutput {
                        assert(units + step =~= units);
                        assert(chars =~= seq![ch]);
                        lemma_emit_pending(
                            encoder,
                            chars,
                            0,
                            larger,
                            output_index,
                            next_read,
                            pending,
                            Some(ch),
                            units,
                        );
                    } else {
                        let next_pending = if w.spec_read() == 1 {
                            None
                        } else {
                            Some(ch)
                        };
                        lemma_loop_grows(
                            decoder,
                            encoder,
                            input,
                            input_index,
                            output_len,
                            larger,
                            output_index,
                            next_read,
                            next_pending,
                            units + step,
                        );
                    }
                }
            }
        }
    }
}

/// A conversion resumed with `pending` that stops because an output of `output_len`
/// units is full goes on, in a larger output, exactly as a conversion resumed where it
/// stopped, with the character it left pending.
proof fn lemma_resume_grows<D: CharsetCodec, E: CharsetCodec>(
    decoder: CharsetDecoder<D>,
    encoder: CharsetEncoder<E>,
    input: Seq<D::Unit>,
    input_index: usize,
    output_len: usize,
    larger: usize,
    output_index: usize,
    read: usize,
    pending: Option<char>,
    units: Seq<E::Unit>,
)
    requires
        input.len() <= usize::MAX,
        output_len <= larger,
        units.len() == 0 || output_index + units.len() <= output_len,
    ensures
        ({
            let (res, next_pending, out) = spec_resume(
                decoder,
                encoder,
                input,
                input_index,
                output_len,
                output_index,
                read,
                pending,
                units,
            );
            res matches Ok(p) ==> (p.spec_status() is NeedOutput ==> spec_resume(
                decoder,
                encoder,
                input,
                input_index,
                larger,
                output_index,
                read,
                pending,
                units,
            ) == spec_resume(
                decoder,
                encoder,
                input,
                input_index,
                larger,
                output_index,
                p.spec_read(),
                next_pending,
                out,
            ))
        }),
{
    broadcast use super::coder_progress::lemma_progress_parts;

    reveal_with_fuel(spec_emit, 2);
    match pending {
        Some(ch) => {
            let at = (output_index + units.len()) as usize;
            lemma_encoder_convert_counts(encoder, seq![ch], 0, output_len, at);
            lemma_write_char_grows(encoder, ch, output_len, larger, at);
            let (res, step) = spec_write_char(encoder, ch, output_len, at);
            if let Ok(w) = res {
                if w.spec_status() is NeedOutput {
                    assert(units + step =~= units);
                } else {
                    let next_pending = if w.spec_read() == 1 {
                        None
                    } else {
                        Some(ch)
                    };
                    lemma_loop_grows(
                        decoder,
                        encoder,
                        input,
                        input_index,
                        output_len,
                        larger,
                        output_index,
                        read,
                        next_pending,
                        units + step,
                    );
                }
            }
        },
        None => {
            lemma_loop_grows(
                decoder,
                encoder,
                input,
                input_index,
                output_len,
                larger,
                output_index,
                read,
                None,
                units,
            );
        },
    }
}

/// Conversion resumes where the output filled up, and loses no character: when a
/// conversion into an output of `output_len` units stops asking for output, converting
/// again from the source index after what it read, writing after what it wrote, with the
/// character it left pending and a `larger` output, writes exactly what one conversion
/// into the larger output writes, reports its result with the first call's counts added,
/// and leaves the same character pending — so finishing afterwards writes the same units
/// too.
pub proof fn lemma_converter_resumes<D: CharsetCodec, E: CharsetCodec>(
    converter: CharsetConverter<D, E>,
    input: Seq<D::Unit>,
    input_index: usize,
    output_len: usize,
    larger: usize,
    output_index: usize,
)
    requires
        input.len() <= usize::MAX,
        output_len <= larger,
    ensures
        ({
            let (res, pending, units) = converter.spec_convert(
                input,
                input_index,
                output_len,
                output_index,
            );
            res matches Ok(p) ==> (p.spec_status() is NeedOutput ==> {
                let (rest, rest_pending, rest_units) = spec_resume(
                    converter.spec_decoder(),
                    converter.spec_encoder(),
                    input,
                    (input_index + p.spec_read()) as usize,
                    larger,
                    (output_index + p.spec_written()) as usize,
                    0,
                    pending,
                    Seq::empty(),
                );
                converter.spec_convert(input, input_index, larger, output_index) == (
                    spec_shift_progress(rest, p.spec_read(), p.spec_written()),
                    rest_pending,
                    units + rest_units,
                )
            })
        }),
{
    let decoder = converter.spec_decoder();
    let encoder = converter.spec_encoder();
    lemma_converter_convert_counts(converter, input, input_index, output_len, output_index);
    lemma_resume_grows(
        decoder,
        encoder,
        input,
        input_index,
        output_len,
        larger,
        output_index,
        0,
        converter.spec_pending(),
        Seq::empty(),
    );
    let (res, pending, units) = converter.spec_convert(
        input,
        input_index,
        output_len,
        output_index,
    );
    if let Ok(p) = res {
        if p.spec_status() is NeedOutput {
            lemma_resume_shift(
                decoder,
                encoder,
                input,
                input_index,
                larger,
                output_index,
                p.spec_read(),
                pending,
                units,
            );
        }
    }
}

} // verus!
