use vstd::prelude::*;

use super::charset_codec::{splice, CharsetCodec};
use super::coder::Coder;
use super::coder_progress::CoderProgress;
use super::decode_status::DecodeStatus;
use super::malformed_action::MalformedAction;
use crate::error::{CharsetDecodeError, CharsetDecodeErrorKind};

verus! {

/// How many input units a malformed sequence starting at `input_index` covers, given the
/// index `error_index` that the codec reported: through the reported unit, at least one
/// unit and at most the units left; none when no input is left.
pub open spec fn spec_malformed_skip(input_index: int, input_len: int, error_index: int) -> int {
    let available = if input_len > input_index {
        input_len - input_index
    } else {
        0
    };
    if available == 0 {
        0
    } else {
        let end = if error_index + 1 < input_len {
            error_index + 1
        } else {
            input_len
        };
        let span = if end > input_index {
            end - input_index
        } else {
            0
        };
        let at_least_one = if span < 1 {
            1
        } else {
            span
        };
        if at_least_one < available {
            at_least_one
        } else {
            available
        }
    }
}

/// True when a decoding error is one that the malformed-input policy handles.
pub open spec fn is_malformed_kind(kind: CharsetDecodeErrorKind) -> bool {
    kind is MalformedSequence || kind is InvalidCodePoint
}

/// The run of a decoder from input position `cursor` after having produced `chars`:
/// what it returns, and all the characters it writes from the call's output index.
///
/// At each step it stops complete when the input is used up and asks for output when
/// the output is full. Otherwise it decodes one character: a decoded character is
/// written; an incomplete sequence stops the run asking for input; a malformed sequence
/// or invalid code point is reported, skipped, or replaced according to `action`; any
/// other error is returned.
pub open spec fn spec_decode_run<C: CharsetCodec>(
    codec: C,
    action: MalformedAction,
    replacement: char,
    input: Seq<C::Unit>,
    input_index: usize,
    output_index: usize,
    output_len: usize,
    cursor: usize,
    chars: Seq<char>,
) -> (Result<CoderProgress, CharsetDecodeError>, Seq<char>)
    decreases input.len() - cursor,
{
    let read = (cursor - input_index) as usize;
    let written = chars.len() as usize;
    let out_cursor = output_index + chars.len();
    if cursor >= input.len() || input.len() > usize::MAX {
        (Ok(CoderProgress::spec_complete(read, written)), chars)
    } else if out_cursor >= output_len {
        (Ok(CoderProgress::spec_need_output(read, written, out_cursor as usize, 1, 0)), chars)
    } else {
        match codec.spec_decode_one(input, cursor) {
            Ok(DecodeStatus::Complete { value, consumed }) => {
                if 1 <= consumed && cursor + consumed <= input.len() {
                    spec_decode_run(
                        codec,
                        action,
                        replacement,
                        input,
                        input_index,
                        output_index,
                        output_len,
                        (cursor + consumed) as usize,
                        chars.push(value),
                    )
                } else {
                    (Ok(CoderProgress::spec_complete(read, written)), chars)
                }
            },
            Ok(DecodeStatus::NeedMore { required, available }) => (
                Ok(
                    CoderProgress::spec_need_input(
                        read,
                        written,
                        cursor,
                        required.saturating_sub(cursor),
                        available,
                    ),
                ),
                chars,
            ),
            Err(e) => {
                if is_malformed_kind(e.spec_kind()) {
                    let skip = spec_malformed_skip(
                        cursor as int,
                        input.len() as int,
                        e.spec_index() as int,
                    );
                    match action {
                        MalformedAction::Report => (Err(e), chars),
                        MalformedAction::Ignore => spec_decode_run(
                            codec,
                            action,
                            replacement,
                            input,
                            input_index,
                            output_index,
                            output_len,
                            (cursor + skip) as usize,
                            chars,
                        ),
                        MalformedAction::Replace => spec_decode_run(
                            codec,
                            action,
                            replacement,
                            input,
                            input_index,
                            output_index,
                            output_len,
                            (cursor + skip) as usize,
                            chars.push(replacement),
                        ),
                    }
                } else {
                    (Err(e), chars)
                }
            },
        }
    }
}

/// Converts units of one charset into Unicode scalar values.
///
/// `CharsetDecoder` wraps a low-level [`CharsetCodec`] and applies the configured
/// [`MalformedAction`] whenever the codec reports malformed input.
#[derive(Clone, Debug, Eq, PartialEq)]
pub struct CharsetDecoder<C: CharsetCodec> {
    /// Low-level codec used for source decoding.
    codec: C,
    /// Action used for malformed input units.
    malformed_action: MalformedAction,
    /// Replacement character used by [`MalformedAction::Replace`].
    replacement: char,
}

impl<C: CharsetCodec> CharsetDecoder<C> {
    /// Default replacement character used when malformed input is replaced.
    pub const DEFAULT_REPLACEMENT: char = '\u{fffd}';

    /// The wrapped codec.
    pub closed spec fn spec_codec(&self) -> C {
        self.codec
    }

    /// The malformed-input action.
    pub closed spec fn spec_malformed_action(&self) -> MalformedAction {
        self.malformed_action
    }

    /// The replacement character.
    pub closed spec fn spec_replacement(&self) -> char {
        self.replacement
    }

    /// What converting `input` from `input_index` into an output of `output_len` units
    /// from `output_index` gives: the result, and the characters written from
    /// `output_index`.
    pub open spec fn spec_convert(
        &self,
        input: Seq<C::Unit>,
        input_index: usize,
        output_len: usize,
        output_index: usize,
    ) -> (Result<CoderProgress, CharsetDecodeError>, Seq<char>) {
        if input_index > input.len() {
            (
                Err(
                    CharsetDecodeError::spec_malformed_sequence(
                        self.spec_codec().spec_charset(),
                        input_index,
                    ),
                ),
                Seq::empty(),
            )
        } else if output_index > output_len {
            (Ok(CoderProgress::spec_need_output(0, 0, output_index, 1, 0)), Seq::empty())
        } else {
            spec_decode_run(
                self.spec_codec(),
                self.spec_malformed_action(),
                self.spec_replacement(),
                input,
                input_index,
                output_index,
                output_len,
                input_index,
                Seq::empty(),
            )
        }
    }

    /// Creates a decoder whose malformed action is [`MalformedAction::Replace`] and
    /// whose replacement character is `U+FFFD`.
    pub fn new(codec: C) -> (r: Self)
        ensures
            r.spec_codec() == codec,
            r.spec_malformed_action() == MalformedAction::Replace,
            r.spec_replacement() == '\u{fffd}',
    {
        Self {
            codec,
            malformed_action: MalformedAction::Replace,
            replacement: Self::DEFAULT_REPLACEMENT,
        }
    }

    /// Returns this decoder with `replacement` as its replacement character.
    pub fn with_replacement(self, replacement: char) -> (r: Self)
        ensures
            r.spec_codec() == self.spec_codec(),
            r.spec_malformed_action() == self.spec_malformed_action(),
            r.spec_replacement() == replacement,
    {
        let mut decoder = self;
        decoder.replacement = replacement;
        decoder
    }

    /// Returns the wrapped low-level codec.
    pub fn codec(&self) -> (r: &C)
        ensures
            *r == self.spec_codec(),
    {
        &self.codec
    }

    /// Returns a mutable reference to the wrapped codec.
    pub fn codec_mut(&mut self) -> (r: &mut C)
        ensures
            *r == old(self).spec_codec(),
            final(self).spec_codec() == *final(r),
            final(self).spec_malformed_action() == old(self).spec_malformed_action(),
            final(self).spec_replacement() == old(self).spec_replacement(),
    {
        &mut self.codec
    }

    /// Returns the configured malformed-input action.
    pub fn malformed_action(&self) -> (r: MalformedAction)
        ensures
            r == self.spec_malformed_action(),
    {
        self.malformed_action
    }

    /// Sets the malformed-input action.
    pub fn set_malformed_action(&mut self, action: MalformedAction)
        ensures
            final(self).spec_codec() == old(self).spec_codec(),
            final(self).spec_malformed_action() == action,
            final(self).spec_replacement() == old(self).spec_replacement(),
    {
        self.malformed_action = action;
    }

    /// Returns the configured replacement character.
    pub fn replacement(&self) -> (r: char)
        ensures
            r == self.spec_replacement(),
    {
        self.replacement
    }

    /// Sets the replacement character.
    pub fn set_replacement(&mut self, replacement: char)
        ensures
            final(self).spec_codec() == old(self).spec_codec(),
            final(self).spec_malformed_action() == old(self).spec_malformed_action(),
            final(self).spec_replacement() == replacement,
    {
        self.replacement = replacement;
    }
}

/// Calculates how many malformed input units to skip.
fn malformed_skip(input_index: usize, input_len: usize, error_index: usize) -> (r: usize)
    ensures
        r == spec_malformed_skip(input_index as int, input_len as int, error_index as int),
{
    let available = input_len.saturating_sub(input_index);
    if available == 0 {
        return 0;
    }
    let end_plus = error_index.saturating_add(1);
    let end = if end_plus < input_len {
        end_plus
    } else {
        input_len
    };
    let span = end.saturating_sub(input_index);
    let at_least_one = if span < 1 {
        1
    } else {
        span
    };
    if at_least_one < available {
        at_least_one
    } else {
        available
    }
}

impl<C: CharsetCodec> Coder<C::Unit, char> for CharsetDecoder<C> {
    type Error = CharsetDecodeError;

    /// Each input unit decodes to at most one character.
    fn max_output_len(&self, input_len: usize) -> (r: Option<usize>)
        ensures
            r == Some(input_len),
    {
        Some(input_len)
    }

    /// A decoder keeps no state between calls.
    fn reset(&mut self)
        ensures
            *final(self) == *old(self),
    {
    }

    /// Decodes source units into Unicode scalar values while applying the malformed
    /// policy.
    fn convert(
        &mut self,
        input: &[C::Unit],
        input_index: usize,
        output: &mut [char],
        output_index: usize,
    ) -> (r: Result<CoderProgress, CharsetDecodeError>)
        ensures
            *final(self) == *old(self),
            ({
                let (res, chars) = old(self).spec_convert(
                    input@,
                    input_index,
                    old(output)@.len() as usize,
                    output_index,
                );
                &&& r == res
                &&& chars.len() == 0 ==> final(output)@ == old(output)@
                &&& chars.len() > 0 ==> final(output)@ == splice(
                    old(output)@,
                    output_index as int,
                    chars,
                )
            }),
    {
        if input_index > input.len() {
            return Err(CharsetDecodeError::malformed_sequence(self.codec.charset(), input_index));
        }
        if output_index > output.len() {
            return Ok(CoderProgress::need_output(0, 0, output_index, 1, 0));
        }
        let ghost codec = self.codec;
        let ghost action = self.malformed_action;
        let ghost replacement = self.replacement;
        let ghost output_len = output@.len() as usize;
        let ghost mut chars: Seq<char> = Seq::empty();
        let mut input_cursor = input_index;
        let mut output_cursor = output_index;
        assert(output@ =~= splice(old(output)@, output_index as int, chars));
        while input_cursor < input.len()
            invariant
                *self == *old(self),
                codec == self.codec,
                action == self.malformed_action,
                replacement == self.replacement,
                output_len == old(output)@.len(),
                output@.len() == output_len,
                input_index <= input_cursor <= input@.len(),
                output_index <= output_cursor <= output_len,
                output_cursor == output_index + chars.len(),
                output@ == splice(old(output)@, output_index as int, chars),
                old(self).spec_convert(input@, input_index, output_len, output_index)
                    == spec_decode_run(
                    codec,
                    action,
                    replacement,
                    input@,
                    input_index,
                    output_index,
                    output_len,
                    input_cursor,
                    chars,
                ),
            decreases input@.len() - input_cursor,
        {
            if output_cursor == output.len() {
                return Ok(
                    CoderProgress::need_output(
                        input_cursor - input_index,
                        output_cursor - output_index,
                        output_cursor,
                        1,
                        0,
                    ),
                );
            }
            proof {
                codec.lemma_decode_one_progress(input@, input_cursor);
            }
            match self.codec.decode_one(input, input_cursor) {
                Ok(DecodeStatus::Complete { value, consumed }) => {
                    output[output_cursor] = value;
                    proof {
                        chars = chars.push(value);
                        assert(output@ =~= splice(old(output)@, output_index as int, chars));
                    }
                    input_cursor = input_cursor + consumed;
                    output_cursor = output_cursor + 1;
                },
                Ok(DecodeStatus::NeedMore { required, available }) => {
                    let needed = required.saturating_sub(input_cursor);
                    return Ok(
                        CoderProgress::need_input(
                            input_cursor - input_index,
                            output_cursor - output_index,
                            input_cursor,
                            needed,
                            available,
                        ),
                    );
                },
                Err(error) => {
                    let malformed = match error.kind() {
                        CharsetDecodeErrorKind::MalformedSequence { .. } => true,
                        CharsetDecodeErrorKind::InvalidCodePoint { .. } => true,
                        CharsetDecodeErrorKind::IncompleteSequence { .. } => false,
                    };
                    if !malformed {
                        return Err(error);
                    }
                    let skip = malformed_skip(input_cursor, input.len(), error.index());
                    match self.malformed_action {
                        MalformedAction::Report => {
                            return Err(error);
                        },
                        MalformedAction::Ignore => {
                            input_cursor = input_cursor + skip;
                        },
                        MalformedAction::Replace => {
                            output[output_cursor] = self.replacement;
                            proof {
                                chars = chars.push(replacement);
                                assert(output@ =~= splice(
                                    old(output)@,
                                    output_index as int,
                                    chars,
                                ));
                            }
                            input_cursor = input_cursor + skip;
                            output_cursor = output_cursor + 1;
                        },
                    }
                },
            }
        }
        Ok(CoderProgress::complete(input_cursor - input_index, output_cursor - output_index))
    }

    /// A decoder has nothing to flush.
    fn finish(&mut self, output: &mut [char], output_index: usize) -> (r: Result<
        CoderProgress,
        CharsetDecodeError,
    >)
        ensures
            *final(self) == *old(self),
            final(output)@ == old(output)@,
            r == Ok::<CoderProgress, CharsetDecodeError>(CoderProgress::spec_complete(0, 0)),
    {
        Ok(CoderProgress::complete(0, 0))
    }
}

} // verus!

verus! {

/// A decoder run only appends characters, writes at most one character for each input
/// unit it consumes, stays inside the input and the output, stops asking for output only
/// when the output is full, asks for input only with output room left, and completes
/// only at the end of the input. The progress it reports counts exactly the characters
/// it wrote.
pub proof fn lemma_decode_run_counts<C: CharsetCodec>(
    codec: C,
    action: MalformedAction,
    replacement: char,
    input: Seq<C::Unit>,
    input_index: usize,
    output_index: usize,
    output_len: usize,
    cursor: usize,
    chars: Seq<char>,
)
    requires
        input_index <= cursor <= input.len() <= usize::MAX,
        cursor - input_index >= chars.len(),
        output_index + chars.len() <= output_len,
    ensures
        ({
            let (res, out) = spec_decode_run(
                codec,
                action,
                replacement,
                input,
                input_index,
                output_index,
                output_len,
                cursor,
                chars,
            );
            &&& out.len() >= chars.len()
            &&& out.subrange(0, chars.len() as int) == chars
            &&& output_index + out.len() <= output_len
            &&& res matches Ok(p) ==> {
                &&& p.spec_written() == out.len()
                &&& p.spec_written() <= p.spec_read()
                &&& input_index + p.spec_read() <= input.len()
                &&& p.spec_status() is NeedOutput ==> output_index + p.spec_written() >= output_len
                &&& p.spec_status() is Complete ==> input_index + p.spec_read() == input.len()
                &&& p.spec_status() is NeedInput ==> output_index + p.spec_written() < output_len
            }
        }),
    decreases input.len() - cursor,
{
    broadcast use super::coder_progress::lemma_progress_parts;

    let out_cursor = output_index + chars.len();
    assert(chars.subrange(0, chars.len() as int) =~= chars);
    if cursor >= input.len() {
    } else if out_cursor >= output_len {
    } else {
        codec.lemma_decode_one_progress(input, cursor);
        match codec.spec_decode_one(input, cursor) {
            Ok(DecodeStatus::Complete { value, consumed }) => {
                if 1 <= consumed && cursor + consumed <= input.len() {
                    let next = chars.push(value);
                    lemma_decode_run_counts(
                        codec,
                        action,
                        replacement,
                        input,
                        input_index,
                        output_index,
                        output_len,
                        (cursor + consumed) as usize,
                        next,
                    );
                    let out = spec_decode_run(
                        codec,
                        action,
                        replacement,
                        input,
                        input_index,
                        output_index,
                        output_len,
                        (cursor + consumed) as usize,
                        next,
                    ).1;
                    assert(out.subrange(0, chars.len() as int) =~= out.subrange(
                        0,
                        next.len() as int,
                    ).subrange(0, chars.len() as int));
                    assert(next.subrange(0, chars.len() as int) =~= chars);
                }
            },
            Ok(DecodeStatus::NeedMore { .. }) => {},
            Err(e) => {
                if is_malformed_kind(e.spec_kind()) {
                    let skip = spec_malformed_skip(
                        cursor as int,
                        input.len() as int,
                        e.spec_index() as int,
                    );
                    match action {
                        MalformedAction::Report => {},
                        MalformedAction::Ignore => {
                            lemma_decode_run_counts(
                                codec,
                                action,
                                replacement,
                                input,
                                input_index,
                                output_index,
                                output_len,
                                (cursor + skip) as usize,
                                chars,
                            );
                        },
                        MalformedAction::Replace => {
                            let next = chars.push(replacement);
                            lemma_decode_run_counts(
                                codec,
                                action,
                                replacement,
                                input,
                                input_index,
                                output_index,
                                output_len,
                                (cursor + skip) as usize,
                                next,
                            );
                            let out = spec_decode_run(
                                codec,
                                action,
                                replacement,
                                input,
                                input_index,
                                output_index,
                                output_len,
                                (cursor + skip) as usize,
                                next,
                            ).1;
                            assert(out.subrange(0, chars.len() as int) =~= out.subrange(
                                0,
                                next.len() as int,
                            ).subrange(0, chars.len() as int));
                            assert(next.subrange(0, chars.len() as int) =~= chars);
                        },
                    }
                }
            },
        }
    }
}

/// A successful decoder call reports as written exactly the characters it writes, writes
/// at most one character per input unit it reads, reads only units that exist, asks for
/// more output only when it filled the output, asks for input only with output room
/// left, and is complete only when it read to the end of the input.
pub proof fn lemma_decoder_convert_counts<C: CharsetCodec>(
    decoder: CharsetDecoder<C>,
    input: Seq<C::Unit>,
    input_index: usize,
    output_len: usize,
    output_index: usize,
)
    requires
        input.len() <= usize::MAX,
    ensures
        ({
            let (res, chars) = decoder.spec_convert(input, input_index, output_len, output_index);
            res matches Ok(p) ==> {
                &&& p.spec_written() == chars.len()
                &&& p.spec_written() <= p.spec_read()
                &&& input_index + p.spec_read() <= input.len()
                &&& p.spec_status() is NeedOutput ==> output_index + p.spec_written() >= output_len
                &&& p.spec_status() is Complete ==> input_index + p.spec_read() == input.len()
                &&& p.spec_status() is NeedInput ==> output_index + p.spec_written() < output_len
                &&& chars.len() > 0 ==> output_index + chars.len() <= output_len
            }
        }),
{
    broadcast use super::coder_progress::lemma_progress_parts;

    if input_index <= input.len() && output_index <= output_len {
        lemma_decode_run_counts(
            decoder.spec_codec(),
            decoder.spec_malformed_action(),
            decoder.spec_replacement(),
            input,
            input_index,
            output_index,
            output_len,
            input_index,
            Seq::empty(),
        );
    }
}

/// Induction step of [`lemma_decoder_absorbs_malformed`]: a decoder run that replaces or
/// ignores malformed input returns no malformed-sequence and no invalid-code-point error.
proof fn lemma_run_absorbs_malformed<C: CharsetCodec>(
    codec: C,
    action: MalformedAction,
    replacement: char,
    input: Seq<C::Unit>,
    input_index: usize,
    output_index: usize,
    output_len: usize,
    cursor: usize,
    chars: Seq<char>,
)
    requires
        !(action is Report),
        input_index <= cursor <= input.len(),
    ensures
        spec_decode_run(
            codec,
            action,
            replacement,
            input,
            input_index,
            output_index,
            output_len,
            cursor,
            chars,
        ).0 matches Err(e) ==> !(e.spec_kind() is MalformedSequence) && !(
        e.spec_kind() is InvalidCodePoint),
    decreases input.len() - cursor,
{
    if cursor < input.len() && input.len() <= usize::MAX && output_index + chars.len()
        < output_len {
        match codec.spec_decode_one(input, cursor) {
            Ok(DecodeStatus::Complete { value, consumed }) => {
                if 1 <= consumed && cursor + consumed <= input.len() {
                    lemma_run_absorbs_malformed(
                        codec,
                        action,
                        replacement,
                        input,
                        input_index,
                        output_index,
                        output_len,
                        (cursor + consumed) as usize,
                        chars.push(value),
                    );
                }
            },
            Ok(DecodeStatus::NeedMore { .. }) => {},
            Err(e) => {
                if is_malformed_kind(e.spec_kind()) {
                    let skip = spec_malformed_skip(
                        cursor as int,
                        input.len() as int,
                        e.spec_index() as int,
                    );
                    let next = if action is Replace {
                        chars.push(replacement)
                    } else {
                        chars
                    };
                    lemma_run_absorbs_malformed(
                        codec,
                        action,
                        replacement,
                        input,
                        input_index,
                        output_index,
                        output_len,
                        (cursor + skip) as usize,
                        next,
                    );
                }
            },
        }
    }
}

/// Under the replace and ignore policies a decoder never stops on malformed input: every
/// malformed sequence and every invalid code point the codec reports is replaced or
/// skipped and decoding goes on, so a decoder returns such an error only under the
/// report policy.
pub proof fn lemma_decoder_absorbs_malformed<C: CharsetCodec>(
    decoder: CharsetDecoder<C>,
    input: Seq<C::Unit>,
    input_index: usize,
    output_len: usize,
    output_index: usize,
)
    requires
        input_index <= input.len(),
    ensures
        ({
            let (res, _) = decoder.spec_convert(input, input_index, output_len, output_index);
            !(decoder.spec_malformed_action() is Report) ==> (res matches Err(e) ==> !(
            e.spec_kind() is MalformedSequence) && !(e.spec_kind() is InvalidCodePoint))
        }),
{
    if !(decoder.spec_malformed_action() is Report) && output_index <= output_len {
        lemma_run_absorbs_malformed(
            decoder.spec_codec(),
            decoder.spec_malformed_action(),
            decoder.spec_replacement(),
            input,
            input_index,
            output_index,
            output_len,
            input_index,
            Seq::empty(),
        );
    }
}

} // verus!
