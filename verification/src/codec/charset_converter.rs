use vstd::prelude::*;

use super::charset_codec::{splice, CharsetCodec};
use super::charset_convert_error::CharsetConvertError;
use super::charset_decoder::{lemma_decoder_convert_counts, CharsetDecoder};
use super::charset_encoder::{lemma_encoder_convert_counts, CharsetEncoder};
use super::coder::Coder;
use super::coder_progress::CoderProgress;
use super::coder_status::CoderStatus;
use crate::error::CharsetEncodeError;

verus! {

/// Writing the single character `ch` through `encoder` at output position `at` of an
/// output of `output_len` units: the encoder's result and the units it writes.
pub open spec fn spec_write_char<E: CharsetCodec>(
    encoder: CharsetEncoder<E>,
    ch: char,
    output_len: usize,
    at: usize,
) -> (Result<CoderProgress, CharsetEncodeError>, Seq<E::Unit>) {
    encoder.spec_convert(seq![ch], 0, output_len, at)
}

/// Encoding the decoded characters `batch` from position `k` on, after `units` were
/// written from `output_index` and `read` source units were consumed: the result that
/// stops the conversion (`None` when every character was written), the pending
/// character, and all the units written from `output_index`.
///
/// Each character is pending while it is written; it stops being pending once the
/// encoder completed it. A target encoding error stops the conversion with that error,
/// and a full output stops it asking for more output.
pub open spec fn spec_emit<E: CharsetCodec>(
    encoder: CharsetEncoder<E>,
    batch: Seq<char>,
    k: int,
    output_len: usize,
    output_index: usize,
    read: usize,
    pending: Option<char>,
    units: Seq<E::Unit>,
) -> (Option<Result<CoderProgress, CharsetConvertError>>, Option<char>, Seq<E::Unit>)
    decreases batch.len() - k,
{
    if k < 0 || k >= batch.len() {
        (None, pending, units)
    } else {
        let ch = batch[k];
        let (res, step) = spec_write_char(
            encoder,
            ch,
            output_len,
            (output_index + units.len()) as usize,
        );
        match res {
            Err(e) => (Some(Err(CharsetConvertError::Encode(e))), Some(ch), units),
            Ok(p) => {
                let next_pending = if p.spec_status() is Complete && p.spec_read() == 1 {
                    None
                } else {
                    Some(ch)
                };
                let next_units = units + step;
                if p.spec_status() is NeedOutput {
                    (
                        Some(
                            Ok(
                                CoderProgress::spec_need_output(
                                    read,
                                    next_units.len() as usize,
                                    (output_index + next_units.len()) as usize,
                                    p.spec_required(),
                                    p.spec_available(),
                                ),
                            ),
                        ),
                        next_pending,
                        next_units,
                    )
                } else {
                    spec_emit(
                        encoder,
                        batch,
                        k + 1,
                        output_len,
                        output_index,
                        read,
                        next_pending,
                        next_units,
                    )
                }
            },
        }
    }
}

/// The conversion loop from source position `input_index + read`, with `pending` and
/// the `units` written so far: the result, the pending character at the end, and all the
/// units written from `output_index`.
///
/// Each round decodes one character and encodes it, so every source unit counted as
/// read belongs to a character that was written or is left pending. The loop ends
/// complete when the input is used up or the decoder consumed nothing, asks for input
/// when the decoder does, and returns the first decoding or encoding error.
pub open spec fn spec_convert_loop<D: CharsetCodec, E: CharsetCodec>(
    decoder: CharsetDecoder<D>,
    encoder: CharsetEncoder<E>,
    input: Seq<D::Unit>,
    input_index: usize,
    output_len: usize,
    output_index: usize,
    read: usize,
    pending: Option<char>,
    units: Seq<E::Unit>,
) -> (Result<CoderProgress, CharsetConvertError>, Option<char>, Seq<E::Unit>)
    decreases input.len() - (input_index + read),
{
    let cursor = input_index + read;
    if cursor >= input.len() || input.len() > usize::MAX {
        (Ok(CoderProgress::spec_complete(read, units.len() as usize)), pending, units)
    } else {
        let (decoded, chars) = decoder.spec_convert(input, cursor as usize, 1, 0);
        match decoded {
            Err(e) => (Err(CharsetConvertError::Decode(e)), pending, units),
            Ok(p) => {
                let next_read = (read + p.spec_read()) as usize;
                let (stop, next_pending, next_units) = spec_emit(
                    encoder,
                    chars,
                    0,
                    output_len,
                    output_index,
                    next_read,
                    pending,
                    units,
                );
                match stop {
                    Some(r) => (r, next_pending, next_units),
                    None => match p.spec_status() {
                        CoderStatus::NeedInput { .. } => (
                            Ok(
                                CoderProgress::spec_need_input(
                                    next_read,
                                    next_units.len() as usize,
                                    (input_index + next_read) as usize,
                                    p.spec_required(),
                                    p.spec_available(),
                                ),
                            ),
                            next_pending,
                            next_units,
                        ),
                        _ => if p.spec_read() > 0 && cursor + p.spec_read() <= input.len() {
                            spec_convert_loop(
                                decoder,
                                encoder,
                                input,
                                input_index,
                                output_len,
                                output_index,
                                next_read,
                                next_pending,
                                next_units,
                            )
                        } else {
                            (
                                Ok(
                                    CoderProgress::spec_complete(
                                        next_read,
                                        next_units.len() as usize,
                                    ),
                                ),
                                next_pending,
                                next_units,
                            )
                        },
                    },
                }
            },
        }
    }
}

/// Converting from source position `input_index + read`, with `units` already written
/// from `output_index` and `pending` waiting: the pending character is written first, and
/// the conversion ends there if it does not fit or fails; otherwise the conversion loop
/// goes on.
pub open spec fn spec_resume<D: CharsetCodec, E: CharsetCodec>(
    decoder: CharsetDecoder<D>,
    encoder: CharsetEncoder<E>,
    input: Seq<D::Unit>,
    input_index: usize,
    output_len: usize,
    output_index: usize,
    read: usize,
    pending: Option<char>,
    units: Seq<E::Unit>,
) -> (Result<CoderProgress, CharsetConvertError>, Option<char>, Seq<E::Unit>) {
    let (stop, next_pending, next_units) = match pending {
        Some(ch) => spec_emit(encoder, seq![ch], 0, output_len, output_index, read, Some(ch), units),
        None => (None, None, units),
    };
    match stop {
        Some(r) => (r, next_pending, next_units),
        None => spec_convert_loop(
            decoder,
            encoder,
            input,
            input_index,
            output_len,
            output_index,
            read,
            next_pending,
            next_units,
        ),
    }
}

/// Writing `t` after `u` over `s` is writing `u + t`.
proof fn lemma_splice_append<T>(s: Seq<T>, at: int, u: Seq<T>, t: Seq<T>)
    requires
        0 <= at,
        at + u.len() + t.len() <= s.len(),
    ensures
        splice(splice(s, at, u), at + u.len(), t) == splice(s, at, u + t),
{
    assert(splice(splice(s, at, u), at + u.len(), t) =~= splice(s, at, u + t));
}

/// Converts units encoded with one charset into units encoded with another charset.
///
/// The converter owns a [`CharsetDecoder`] for the source charset and a
/// [`CharsetEncoder`] for the target charset. A decoded character may be kept
/// pending between calls when the target output buffer is full.
#[derive(Clone, Debug, Eq, PartialEq)]
pub struct CharsetConverter<D: CharsetCodec, E: CharsetCodec> {
    /// Source charset decoder.
    decoder: CharsetDecoder<D>,
    /// Target charset encoder.
    encoder: CharsetEncoder<E>,
    /// Decoded character waiting for target output capacity.
    pending: Option<char>,
}

impl<D: CharsetCodec, E: CharsetCodec> CharsetConverter<D, E> {
    /// The source decoder.
    pub closed spec fn spec_decoder(&self) -> CharsetDecoder<D> {
        self.decoder
    }

    /// The target encoder.
    pub closed spec fn spec_encoder(&self) -> CharsetEncoder<E> {
        self.encoder
    }

    /// The decoded character waiting to be written, if any.
    pub closed spec fn spec_pending(&self) -> Option<char> {
        self.pending
    }

    /// What converting `input` from `input_index` into an output of `output_len` units
    /// from `output_index` gives: the result, the pending character afterwards, and the
    /// units written from `output_index`.
    ///
    /// A pending character is written first; if it does not fit, or fails, the call ends
    /// there without reading input.
    pub open spec fn spec_convert(
        &self,
        input: Seq<D::Unit>,
        input_index: usize,
        output_len: usize,
        output_index: usize,
    ) -> (Result<CoderProgress, CharsetConvertError>, Option<char>, Seq<E::Unit>) {
        spec_resume(
            self.spec_decoder(),
            self.spec_encoder(),
            input,
            input_index,
            output_len,
            output_index,
            0,
            self.spec_pending(),
            Seq::empty(),
        )
    }

    /// What flushing into an output of `output_len` units from `output_index` gives: the
    /// result, the pending character afterwards, and the units written.
    pub open spec fn spec_finish(&self, output_len: usize, output_index: usize) -> (Result<
        CoderProgress,
        CharsetConvertError,
    >, Option<char>, Seq<E::Unit>) {
        match self.spec_pending() {
            Some(ch) => {
                let (stop, pending, units) = spec_emit(
                    self.spec_encoder(),
                    seq![ch],
                    0,
                    output_len,
                    output_index,
                    0,
                    Some(ch),
                    Seq::empty(),
                );
                match stop {
                    Some(r) => (r, pending, units),
                    None => (Ok(CoderProgress::spec_complete(0, units.len() as usize)), pending, units),
                }
            },
            None => (Ok(CoderProgress::spec_complete(0, 0)), None, Seq::empty()),
        }
    }

    /// Creates a charset converter from raw source and target codecs, with the decoder
    /// and the encoder that `CharsetDecoder::new` and `CharsetEncoder::new` give.
    pub fn from_codecs(source: D, target: E) -> (r: Self)
        requires
            CharsetEncoder::<E>::spec_encode_replacement(target, '\u{fffd}') is Ok
                || CharsetEncoder::<E>::spec_encode_replacement(target, '?') is Ok,
        ensures
            r.spec_decoder().spec_codec() == source,
            r.spec_decoder().spec_malformed_action() == super::malformed_action::MalformedAction::Replace,
            r.spec_decoder().spec_replacement() == '\u{fffd}',
            r.spec_encoder().spec_codec() == target,
            r.spec_encoder().spec_unmappable_action() == super::unmappable_action::UnmappableAction::Replace,
            CharsetEncoder::<E>::spec_encode_replacement(target, '\u{fffd}') is Ok ==> r.spec_encoder().spec_replacement()
                == '\u{fffd}' && Ok::<Seq<E::Unit>, crate::error::CharsetEncodeError>(
                r.spec_encoder().spec_replacement_units(),
            ) == CharsetEncoder::<E>::spec_encode_replacement(target, '\u{fffd}'),
            CharsetEncoder::<E>::spec_encode_replacement(target, '\u{fffd}') is Err ==> r.spec_encoder().spec_replacement()
                == '?' && Ok::<Seq<E::Unit>, crate::error::CharsetEncodeError>(
                r.spec_encoder().spec_replacement_units(),
            ) == CharsetEncoder::<E>::spec_encode_replacement(target, '?'),
            r.spec_pending() is None,
    {
        Self::new(CharsetDecoder::new(source), CharsetEncoder::new(target))
    }

    /// Creates a charset converter from a decoder and an encoder, with nothing pending.
    pub fn new(decoder: CharsetDecoder<D>, encoder: CharsetEncoder<E>) -> (r: Self)
        ensures
            r.spec_decoder() == decoder,
            r.spec_encoder() == encoder,
            r.spec_pending() is None,
    {
        Self { decoder, encoder, pending: None }
    }

    /// Returns the source decoder.
    pub fn decoder(&self) -> (r: &CharsetDecoder<D>)
        ensures
            *r == self.spec_decoder(),
    {
        &self.decoder
    }

    /// Returns the target encoder.
    pub fn encoder(&self) -> (r: &CharsetEncoder<E>)
        ensures
            *r == self.spec_encoder(),
    {
        &self.encoder
    }

    /// Returns a mutable source decoder.
    pub fn decoder_mut(&mut self) -> (r: &mut CharsetDecoder<D>)
        ensures
            *r == old(self).spec_decoder(),
            final(self).spec_decoder() == *final(r),
            final(self).spec_encoder() == old(self).spec_encoder(),
            final(self).spec_pending() == old(self).spec_pending(),
    {
        &mut self.decoder
    }

    /// Returns a mutable target encoder.
    pub fn encoder_mut(&mut self) -> (r: &mut CharsetEncoder<E>)
        ensures
            *r == old(self).spec_encoder(),
            final(self).spec_encoder() == *final(r),
            final(self).spec_decoder() == old(self).spec_decoder(),
            final(self).spec_pending() == old(self).spec_pending(),
    {
        &mut self.encoder
    }

    /// Writes the character `ch` through the target encoder at `output_index + *written`,
    /// clears the pending character once it was written, and adds the units written to
    /// `*written`.
    fn write_pending(
        &mut self,
        ch: char,
        output: &mut [E::Unit],
        output_index: usize,
        written: &mut usize,
    ) -> (r: Result<CoderProgress, CharsetConvertError>)
        requires
            *old(written) == 0 || output_index + *old(written) <= old(output)@.len(),
        ensures
            final(self).spec_decoder() == old(self).spec_decoder(),
            final(self).spec_encoder() == old(self).spec_encoder(),
            final(output)@.len() == old(output)@.len(),
            ({
                let (res, step) = spec_write_char(
                    old(self).spec_encoder(),
                    ch,
                    old(output)@.len() as usize,
                    (output_index + *old(written)) as usize,
                );
                match res {
                    Err(e) => {
                        &&& r == Err::<CoderProgress, CharsetConvertError>(
                            CharsetConvertError::Encode(e),
                        )
                        &&& final(self).spec_pending() == old(self).spec_pending()
                        &&& *final(written) == *old(written)
                        &&& final(output)@ == old(output)@
                    },
                    Ok(p) => {
                        &&& r == Ok::<CoderProgress, CharsetConvertError>(p)
                        &&& final(self).spec_pending() == (if p.spec_status() is Complete
                            && p.spec_read() == 1 {
                            None
                        } else {
                            old(self).spec_pending()
                        })
                        &&& *final(written) == *old(written) + step.len()
                        &&& step.len() == 0 ==> final(output)@ == old(output)@
                        &&& step.len() > 0 ==> output_index + *old(written) + step.len()
                            <= old(output)@.len() && final(output)@ == splice(
                            old(output)@,
                            output_index + *old(written),
                            step,
                        )
                    },
                }
            }),
    {
        let mut single: Vec<char> = Vec::new();
        single.push(ch);
        assert(single@ =~= seq![ch]);
        let output_len = output.len();
        let at = output_index + *written;
        proof {
            lemma_encoder_convert_counts(self.encoder, seq![ch], 0, output@.len() as usize, at);
        }
        let progress = match self.encoder.convert(single.as_slice(), 0, output, at) {
            Ok(progress) => progress,
            Err(error) => {
                proof {
                    reveal_with_fuel(super::charset_encoder::spec_encode_run, 2);
                }
                return Err(CharsetConvertError::Encode(error));
            },
        };
        if matches!(progress.status(), CoderStatus::Complete) && progress.read() == 1 {
            self.pending = None;
        }
        *written = *written + progress.written();
        Ok(progress)
    }
}

impl<D: CharsetCodec, E: CharsetCodec> Coder<D::Unit, E::Unit> for CharsetConverter<D, E> {
    type Error = CharsetConvertError;

    /// The number of source units times the target codec's maximum units per character,
    /// or `None` when that product overflows.
    fn max_output_len(&self, input_len: usize) -> (r: Option<usize>)
        ensures
            r == (if input_len * self.spec_encoder().spec_codec().spec_max_units_per_char()
                <= usize::MAX {
                Some(
                    (input_len * self.spec_encoder().spec_codec().spec_max_units_per_char()) as usize,
                )
            } else {
                None::<usize>
            }),
    {
        input_len.checked_mul(self.encoder.codec().max_units_per_char())
    }

    /// Clears any pending decoded character.
    fn reset(&mut self)
        ensures
            final(self).spec_decoder() == old(self).spec_decoder(),
            final(self).spec_encoder() == old(self).spec_encoder(),
            final(self).spec_pending() is None,
    {
        self.pending = None;
        self.decoder.reset();
        self.encoder.reset();
    }

    /// Converts source units to target units through the configured decoder and encoder.
    fn convert(
        &mut self,
        input: &[D::Unit],
        input_index: usize,
        output: &mut [E::Unit],
        output_index: usize,
    ) -> (r: Result<CoderProgress, CharsetConvertError>)
        ensures
            final(self).spec_decoder() == old(self).spec_decoder(),
            final(self).spec_encoder() == old(self).spec_encoder(),
            ({
                let (res, pending, units) = old(self).spec_convert(
                    input@,
                    input_index,
                    old(output)@.len() as usize,
                    output_index,
                );
                &&& r == res
                &&& final(self).spec_pending() == pending
                &&& units.len() == 0 ==> final(output)@ == old(output)@
                &&& units.len() > 0 ==> final(output)@ == splice(
                    old(output)@,
                    output_index as int,
                    units,
                )
            }),
    {
        let input_len = input.len();
        let output_len = output.len();
        let ghost dec = self.decoder;
        let ghost enc = self.encoder;
        let ghost target = old(self).spec_convert(input@, input_index, output_len, output_index);
        let mut read: usize = 0;
        let mut written: usize = 0;
        let ghost mut units: Seq<E::Unit> = Seq::empty();
        if let Some(ch) = self.pending {
            let progress = match self.write_pending(ch, output, output_index, &mut written) {
                Ok(progress) => progress,
                Err(error) => {
                    return Err(error);
                },
            };
            proof {
                reveal_with_fuel(spec_emit, 2);
                let step = spec_write_char(enc, ch, output_len, output_index).1;
                units = units + step;
                assert(units =~= step);
            }
            if matches!(progress.status(), CoderStatus::NeedOutput { .. }) {
                let status = CoderStatus::NeedOutput {
                    output_index: output_index + written,
                    required: progress.required(),
                    available: progress.available(),
                };
                return Ok(CoderProgress::new(status, read, written));
            }
        }
        let mut decoded: Vec<char> = vec!['\0'; 1];
        assert(target == spec_convert_loop(
            dec,
            enc,
            input@,
            input_index,
            output_len,
            output_index,
            read,
            self.pending,
            units,
        ));
        while input_index + read < input.len()
            invariant
                self.decoder == dec,
                self.encoder == enc,
                dec == old(self).spec_decoder(),
                enc == old(self).spec_encoder(),
                target == old(self).spec_convert(input@, input_index, output_len, output_index),
                input_len == input@.len(),
                output_len == old(output)@.len(),
                output@.len() == output_len,
                decoded@.len() == 1,
                read == 0 || input_index + read <= input_len,
                written == units.len(),
                units.len() == 0 ==> output@ == old(output)@,
                units.len() > 0 ==> output_index + units.len() <= output_len && output@ == splice(
                    old(output)@,
                    output_index as int,
                    units,
                ),
                target == spec_convert_loop(
                    dec,
                    enc,
                    input@,
                    input_index,
                    output_len,
                    output_index,
                    read,
                    self.pending,
                    units,
                ),
            decreases input_len - input_index - read,
        {
            let cursor = input_index + read;
            proof {
                lemma_decoder_convert_counts(dec, input@, cursor, 1, 0);
            }
            let decode_progress = match self.decoder.convert(input, cursor, decoded.as_mut_slice(), 0) {
                Ok(progress) => progress,
                Err(error) => {
                    return Err(CharsetConvertError::Decode(error));
                },
            };
            let ghost chars = dec.spec_convert(input@, cursor, 1, 0).1;
            let decode_read = decode_progress.read();
            let decode_written = decode_progress.written();
            let ghost read_old = read;
            read = read + decode_read;
            let ghost pending0 = self.pending;
            let ghost units0 = units;
            let ghost emitted = spec_emit(
                enc,
                chars,
                0,
                output_len,
                output_index,
                read,
                pending0,
                units0,
            );
            assert(emitted.0 is Some ==> target == (emitted.0->0, emitted.1, emitted.2));
            let mut i: usize = 0;
            while i < decode_written
                invariant
                    self.decoder == dec,
                    self.encoder == enc,
                    dec == old(self).spec_decoder(),
                    enc == old(self).spec_encoder(),
                    target == old(self).spec_convert(input@, input_index, output_len, output_index),
                    output_len == old(output)@.len(),
                    output@.len() == output_len,
                    decode_written == chars.len(),
                    decode_written <= 1,
                    decoded@.len() == 1,
                    forall|j: int| 0 <= j < chars.len() ==> decoded@[j] == chars[j],
                    i <= decode_written,
                    emitted == spec_emit(
                        enc,
                        chars,
                        0,
                        output_len,
                        output_index,
                        read,
                        pending0,
                        units0,
                    ),
                    emitted.0 is Some ==> target == (emitted.0->0, emitted.1, emitted.2),
                    written == units.len(),
                    units.len() == 0 ==> output@ == old(output)@,
                    units.len() > 0 ==> output_index + units.len() <= output_len && output@
                        == splice(old(output)@, output_index as int, units),
                    spec_emit(enc, chars, 0, output_len, output_index, read, pending0, units0)
                        == spec_emit(
                        enc,
                        chars,
                        i as int,
                        output_len,
                        output_index,
                        read,
                        self.pending,
                        units,
                    ),
                decreases decode_written - i,
            {
                let ch = decoded[i];
                self.pending = Some(ch);
                let ghost at = (output_index + units.len()) as usize;
                let progress = match self.write_pending(ch, output, output_index, &mut written) {
                    Ok(progress) => progress,
                    Err(error) => {
                        return Err(error);
                    },
                };
                proof {
                    let step = spec_write_char(enc, ch, output_len, at).1;
                    if step.len() > 0 {
                        if units.len() > 0 {
                            lemma_splice_append(old(output)@, output_index as int, units, step);
                        } else {
                            assert(units + step =~= step);
                        }
                    } else {
                        assert(units + step =~= units);
                    }
                    units = units + step;
                }
                if matches!(progress.status(), CoderStatus::NeedOutput { .. }) {
                    let status = CoderStatus::NeedOutput {
                        output_index: output_index + written,
                        required: progress.required(),
                        available: progress.available(),
                    };
                    return Ok(CoderProgress::new(status, read, written));
                }
                i = i + 1;
            }
            match decode_progress.status() {
                CoderStatus::Complete => {
                    if input_index + read >= input.len() || decode_read == 0 {
                        proof {
                            reveal_with_fuel(spec_convert_loop, 2);
                        }
                        return Ok(CoderProgress::complete(read, written));
                    }
                },
                CoderStatus::NeedInput { .. } => {
                    let status = CoderStatus::NeedInput {
                        input_index: input_index + read,
                        required: decode_progress.required(),
                        available: decode_progress.available(),
                    };
                    return Ok(CoderProgress::new(status, read, written));
                },
                CoderStatus::NeedOutput { .. } => {},
            }
        }
        Ok(CoderProgress::complete(read, written))
    }

    /// Flushes one pending decoded character, if any.
    fn finish(&mut self, output: &mut [E::Unit], output_index: usize) -> (r: Result<
        CoderProgress,
        CharsetConvertError,
    >)
        ensures
            final(self).spec_decoder() == old(self).spec_decoder(),
            final(self).spec_encoder() == old(self).spec_encoder(),
            ({
                let (res, pending, units) = old(self).spec_finish(
                    old(output)@.len() as usize,
                    output_index,
                );
                &&& r == res
                &&& final(self).spec_pending() == pending
                &&& units.len() == 0 ==> final(output)@ == old(output)@
                &&& units.len() > 0 ==> final(output)@ == splice(
                    old(output)@,
                    output_index as int,
                    units,
                )
            }),
    {
        let output_len = output.len();
        if let Some(ch) = self.pending {
            let mut written: usize = 0;
            let progress = match self.write_pending(ch, output, output_index, &mut written) {
                Ok(progress) => progress,
                Err(error) => {
                    return Err(error);
                },
            };
            proof {
                reveal_with_fuel(spec_emit, 2);
                let step = spec_write_char(self.encoder, ch, output_len, output_index).1;
                assert(Seq::<E::Unit>::empty() + step =~= step);
            }
            if matches!(progress.status(), CoderStatus::NeedOutput { .. }) {
                let status = CoderStatus::NeedOutput {
                    output_index: output_index + written,
                    required: progress.required(),
                    available: progress.available(),
                };
                return Ok(CoderProgress::new(status, 0, written));
            }
            return Ok(CoderProgress::complete(0, written));
        }
        Ok(CoderProgress::complete(0, 0))
    }
}

} // verus!

verus! {

/// Encoding a batch only appends units, keeps them inside the output, and a stop that
/// asks for output counts exactly the units written.
pub(crate) proof fn lemma_emit_counts<E: CharsetCodec>(
    encoder: CharsetEncoder<E>,
    batch: Seq<char>,
    k: int,
    output_len: usize,
    output_index: usize,
    read: usize,
    pending: Option<char>,
    units: Seq<E::Unit>,
)
    requires
        units.len() == 0 || output_index + units.len() <= output_len,
    ensures
        ({
            let (stop, _, out) = spec_emit(
                encoder,
                batch,
                k,
                output_len,
                output_index,
                read,
                pending,
                units,
            );
            &&& out.len() >= units.len()
            &&& out.subrange(0, units.len() as int) == units
            &&& out.len() == 0 || output_index + out.len() <= output_len
            &&& stop matches Some(Ok(p)) ==> p.spec_written() == out.len() && p.spec_read() == read
        }),
    decreases batch.len() - k,
{
    broadcast use super::coder_progress::lemma_progress_parts;

    assert(units.subrange(0, units.len() as int) =~= units);
    if 0 <= k < batch.len() {
        let ch = batch[k];
        let at = (output_index + units.len()) as usize;
        lemma_encoder_convert_counts(encoder, seq![ch], 0, output_len, at);
        let (res, step) = spec_write_char(encoder, ch, output_len, at);
        if let Ok(p) = res {
            let next = units + step;
            let next_pending = if p.spec_status() is Complete && p.spec_read() == 1 {
                None
            } else {
                Some(ch)
            };
            if !(p.spec_status() is NeedOutput) {
                lemma_emit_counts(
                    encoder,
                    batch,
                    k + 1,
                    output_len,
                    output_index,
                    read,
                    next_pending,
                    next,
                );
                let out = spec_emit(
                    encoder,
                    batch,
                    k + 1,
                    output_len,
                    output_index,
                    read,
                    next_pending,
                    next,
                ).2;
                assert(out.subrange(0, units.len() as int) =~= out.subrange(
                    0,
                    next.len() as int,
                ).subrange(0, units.len() as int));
                assert(next.subrange(0, units.len() as int) =~= units);
            }
        }
    }
}

/// The conversion loop only appends units, keeps them inside the output, reads only
/// source units that exist, and reports as written exactly the units it wrote.
proof fn lemma_convert_loop_counts<D: CharsetCodec, E: CharsetCodec>(
    decoder: CharsetDecoder<D>,
    encoder: CharsetEncoder<E>,
    input: Seq<D::Unit>,
    input_index: usize,
    output_len: usize,
    output_index: usize,
    read: usize,
    pending: Option<char>,
    units: Seq<E::Unit>,
)
    requires
        input.len() <= usize::MAX,
        read == 0 || input_index + read <= input.len(),
        units.len() == 0 || output_index + units.len() <= output_len,
    ensures
        ({
            let (res, _, out) = spec_convert_loop(
                decoder,
                encoder,
                input,
                input_index,
                output_len,
                output_index,
                read,
                pending,
                units,
            );
            &&& out.len() >= units.len()
            &&& out.len() == 0 || output_index + out.len() <= output_len
            &&& res matches Ok(p) ==> {
                &&& p.spec_written() == out.len()
                &&& p.spec_read() >= read
                &&& p.spec_read() == 0 || input_index + p.spec_read() <= input.len()
            }
        }),
    decreases input.len() - (input_index + read),
{
    broadcast use super::coder_progress::lemma_progress_parts;

    let cursor = input_index + read;
    if cursor < input.len() {
        lemma_decoder_convert_counts(decoder, input, cursor as usize, 1, 0);
        let (decoded, chars) = decoder.spec_convert(input, cursor as usize, 1, 0);
        if let Ok(p) = decoded {
            let next_read = (read + p.spec_read()) as usize;
            lemma_emit_counts(encoder, chars, 0, output_len, output_index, next_read, pending, units);
            let (stop, next_pending, next_units) = spec_emit(
                encoder,
                chars,
                0,
                output_len,
                output_index,
                next_read,
                pending,
                units,
            );
            if stop is None && !(p.spec_status() is NeedInput) && p.spec_read() > 0 && cursor
                + p.spec_read() <= input.len() {
                lemma_convert_loop_counts(
                    decoder,
                    encoder,
                    input,
                    input_index,
                    output_len,
                    output_index,
                    next_read,
                    next_pending,
                    next_units,
                );
            }
        }
    }
}

/// A successful conversion reports as written exactly the units it writes, keeps them
/// inside the output, and reads only source units that exist.
pub proof fn lemma_converter_convert_counts<D: CharsetCodec, E: CharsetCodec>(
    converter: CharsetConverter<D, E>,
    input: Seq<D::Unit>,
    input_index: usize,
    output_len: usize,
    output_index: usize,
)
    requires
        input.len() <= usize::MAX,
    ensures
        ({
            let (res, _, units) = converter.spec_convert(input, input_index, output_len, output_index);
            &&& units.len() > 0 ==> output_index + units.len() <= output_len
            &&& res matches Ok(p) ==> {
                &&& p.spec_written() == units.len()
                &&& p.spec_read() == 0 || input_index + p.spec_read() <= input.len()
            }
        }),
{
    broadcast use super::coder_progress::lemma_progress_parts;

    let (stop, pending, units) = match converter.spec_pending() {
        Some(ch) => {
            lemma_emit_counts(
                converter.spec_encoder(),
                seq![ch],
                0,
                output_len,
                output_index,
                0,
                Some(ch),
                Seq::empty(),
            );
            spec_emit(
                converter.spec_encoder(),
                seq![ch],
                0,
                output_len,
                output_index,
                0,
                Some(ch),
                Seq::empty(),
            )
        },
        None => (None, None, Seq::empty()),
    };
    if stop is None {
        lemma_convert_loop_counts(
            converter.spec_decoder(),
            converter.spec_encoder(),
            input,
            input_index,
            output_len,
            output_index,
            0,
            pending,
            units,
        );
    }
}

/// Finishing never loses the pending character: it stops being pending exactly when
/// finishing completes; when finishing asks for output or fails, it stays pending and no
/// unit is written, so a later finish makes the same attempt again; with nothing pending,
/// finishing completes and writes nothing.
pub proof fn lemma_finish_keeps_pending<D: CharsetCodec, E: CharsetCodec>(
    converter: CharsetConverter<D, E>,
    output_len: usize,
    output_index: usize,
)
    ensures
        ({
            let (res, pending, units) = converter.spec_finish(output_len, output_index);
            let completed = (res matches Ok(p) && p.spec_status() is Complete);
            &&& completed ==> pending is None
            &&& !completed ==> pending == converter.spec_pending() && units.len() == 0
            &&& converter.spec_pending() is None ==> res == Ok::<
                CoderProgress,
                CharsetConvertError,
            >(CoderProgress::spec_complete(0, 0)) && units.len() == 0
        }),
{
    broadcast use super::coder_progress::lemma_progress_parts;

    reveal_with_fuel(spec_emit, 2);
    if let Some(ch) = converter.spec_pending() {
        lemma_encoder_convert_counts(converter.spec_encoder(), seq![ch], 0, output_len, output_index);
        let (res, step) = spec_write_char(converter.spec_encoder(), ch, output_len, output_index);
        assert(Seq::<E::Unit>::empty() + step =~= step);
    }
}

} // verus!
