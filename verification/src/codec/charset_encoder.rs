use vstd::prelude::*;

use super::charset_codec::{splice, CharsetCodec};
use super::coder::Coder;
use super::coder_progress::CoderProgress;
use super::coder_status::CoderStatus;
use super::unmappable_action::UnmappableAction;
use crate::encoding::Charset;
use crate::error::{CharsetEncodeError, CharsetEncodeErrorKind, CharsetEncodeResult};
use vstd::std_specs::cmp::{PartialEqSpec, PartialEqSpecImpl};

verus! {

/// Size of the scratch buffer used to encode a replacement character: the codec's
/// maximum units per character, at least one.
pub open spec fn spec_scratch_len(max_units: usize) -> usize {
    if max_units < 1 {
        1
    } else {
        max_units
    }
}

/// Writing the replacement units `units` at `output_index` of an output of `output_len`
/// units: the units written, or a buffer-too-small error when they do not fit.
pub open spec fn spec_write_replacement<U>(
    charset: Charset,
    units: Seq<U>,
    output_len: usize,
    output_index: usize,
) -> CharsetEncodeResult<Seq<U>> {
    let available = output_len.saturating_sub(output_index);
    if available < units.len() {
        Err(
            CharsetEncodeError::spec_new(
                charset,
                CharsetEncodeErrorKind::BufferTooSmall {
                    required: output_index.saturating_add(units.len() as usize),
                    available,
                },
                output_index,
            ),
        )
    } else {
        Ok(units)
    }
}

/// Encoding the character `ch` found at input position `cursor` into an output of
/// `output_len` units at `out_cursor`, with the unmappable policy applied: the units
/// written, or the error.
pub open spec fn spec_encode_step<C: CharsetCodec>(
    codec: C,
    action: UnmappableAction,
    replacement_units: Seq<C::Unit>,
    ch: char,
    cursor: usize,
    output_len: usize,
    out_cursor: usize,
) -> CharsetEncodeResult<Seq<C::Unit>> {
    match codec.spec_encode_one(ch, output_len, out_cursor) {
        Ok(units) => Ok(units),
        Err(e) => if e.spec_kind() is UnmappableCharacter {
            match action {
                UnmappableAction::Report => Err(
                    CharsetEncodeError::spec_new(
                        codec.spec_charset(),
                        CharsetEncodeErrorKind::UnmappableCharacter { value: ch as u32 },
                        cursor,
                    ),
                ),
                UnmappableAction::Ignore => Ok(Seq::empty()),
                UnmappableAction::Replace => spec_write_replacement(
                    codec.spec_charset(),
                    replacement_units,
                    output_len,
                    out_cursor,
                ),
            }
        } else {
            Err(e)
        },
    }
}

/// The run of an encoder from input position `cursor` after having produced `units`:
/// what it returns, and all the units it writes from the call's output index.
///
/// Each character is encoded in turn with the unmappable policy applied; a buffer that
/// is too small stops the run asking for output, and any other error is returned.
pub open spec fn spec_encode_run<C: CharsetCodec>(
    codec: C,
    action: UnmappableAction,
    replacement_units: Seq<C::Unit>,
    input: Seq<char>,
    input_index: usize,
    output_index: usize,
    output_len: usize,
    cursor: usize,
    units: Seq<C::Unit>,
) -> (Result<CoderProgress, CharsetEncodeError>, Seq<C::Unit>)
    decreases input.len() - cursor,
{
    let read = (cursor - input_index) as usize;
    let written = units.len() as usize;
    let out_cursor = (output_index + units.len()) as usize;
    if cursor >= input.len() || input.len() > usize::MAX {
        (Ok(CoderProgress::spec_complete(read, written)), units)
    } else {
        match spec_encode_step(
            codec,
            action,
            replacement_units,
            input[cursor as int],
            cursor,
            output_len,
            out_cursor,
        ) {
            Ok(step) => if out_cursor + step.len() <= output_len {
                spec_encode_run(
                    codec,
                    action,
                    replacement_units,
                    input,
                    input_index,
                    output_index,
                    output_len,
                    (cursor + 1) as usize,
                    units + step,
                )
            } else {
                (Ok(CoderProgress::spec_complete(read, written)), units)
            },
            Err(e) => if e.spec_kind() is BufferTooSmall {
                (
                    Ok(
                        CoderProgress::spec_new(
                            CoderStatus::NeedOutput {
                                output_index: out_cursor,
                                required: e.spec_kind()->required.saturating_sub(out_cursor),
                                available: e.spec_kind()->available,
                            },
                            read,
                            written,
                        ),
                    ),
                    units,
                )
            } else {
                (Err(e), units)
            },
        }
    }
}

/// Converts Unicode scalar values into units of one charset.
///
/// `CharsetEncoder` wraps a low-level [`CharsetCodec`] and applies the configured
/// [`UnmappableAction`] whenever the codec reports that an input character cannot be
/// represented by the target charset. The replacement character is encoded once, when
/// it is set, and its units are kept for reuse.
#[derive(Clone, Debug)]
pub struct CharsetEncoder<C: CharsetCodec> {
    /// Low-level codec used for target encoding.
    codec: C,
    /// Action used for unmappable input characters.
    unmappable_action: UnmappableAction,
    /// Replacement character used by [`UnmappableAction::Replace`].
    replacement: char,
    /// Pre-encoded units for the configured replacement character.
    replacement_units: Vec<C::Unit>,
}

impl<C: CharsetCodec> CharsetEncoder<C> {
    /// Default replacement character used when unmappable input is replaced.
    pub const DEFAULT_REPLACEMENT: char = '\u{fffd}';

    /// Fallback replacement used when the default replacement is unmappable.
    pub const DEFAULT_FALLBACK_REPLACEMENT: char = '?';

    /// The wrapped codec.
    pub closed spec fn spec_codec(&self) -> C {
        self.codec
    }

    /// The unmappable-character action.
    pub closed spec fn spec_unmappable_action(&self) -> UnmappableAction {
        self.unmappable_action
    }

    /// The replacement character.
    pub closed spec fn spec_replacement(&self) -> char {
        self.replacement
    }

    /// The cached units of the replacement character.
    pub closed spec fn spec_replacement_units(&self) -> Seq<C::Unit> {
        self.replacement_units@
    }

    /// What encoding `ch` as a replacement gives: the codec's units for it in a scratch
    /// buffer starting at index zero, or the codec's error.
    pub open spec fn spec_encode_replacement(codec: C, ch: char) -> CharsetEncodeResult<
        Seq<C::Unit>,
    > {
        codec.spec_encode_one(ch, spec_scratch_len(codec.spec_max_units_per_char()), 0)
    }

    /// What converting `input` from `input_index` into an output of `output_len` units
    /// from `output_index` gives: the result, and the units written from `output_index`.
    pub open spec fn spec_convert(
        &self,
        input: Seq<char>,
        input_index: usize,
        output_len: usize,
        output_index: usize,
    ) -> (Result<CoderProgress, CharsetEncodeError>, Seq<C::Unit>) {
        if input_index > input.len() {
            (
                Err(
                    CharsetEncodeError::spec_new(
                        self.spec_codec().spec_charset(),
                        CharsetEncodeErrorKind::InvalidInputIndex { input_len: input.len() as usize },
                        input_index,
                    ),
                ),
                Seq::empty(),
            )
        } else if output_index > output_len {
            (
                Ok(
                    CoderProgress::spec_new(
                        CoderStatus::NeedOutput { output_index, required: 1, available: 0 },
                        0,
                        0,
                    ),
                ),
                Seq::empty(),
            )
        } else {
            spec_encode_run(
                self.spec_codec(),
                self.spec_unmappable_action(),
                self.spec_replacement_units(),
                input,
                input_index,
                output_index,
                output_len,
                input_index,
                Seq::empty(),
            )
        }
    }

    /// Creates an encoder whose unmappable action is [`UnmappableAction::Replace`] and
    /// whose replacement is `U+FFFD`, or `?` when the codec cannot encode `U+FFFD`.
    ///
    /// The codec must be able to encode one of the two.
    pub fn new(codec: C) -> (r: Self)
        requires
            Self::spec_encode_replacement(codec, '\u{fffd}') is Ok || Self::spec_encode_replacement(
                codec,
                '?',
            ) is Ok,
        ensures
            r.spec_codec() == codec,
            r.spec_unmappable_action() == UnmappableAction::Replace,
            Self::spec_encode_replacement(codec, '\u{fffd}') is Ok ==> r.spec_replacement()
                == '\u{fffd}' && Ok::<Seq<C::Unit>, CharsetEncodeError>(r.spec_replacement_units())
                == Self::spec_encode_replacement(codec, '\u{fffd}'),
            Self::spec_encode_replacement(codec, '\u{fffd}') is Err ==> r.spec_replacement() == '?'
                && Ok::<Seq<C::Unit>, CharsetEncodeError>(r.spec_replacement_units())
                == Self::spec_encode_replacement(codec, '?'),
            r.spec_replacement_units().len() <= codec.spec_max_units_per_char(),
    {
        proof {
            lemma_replacement_fits(codec, '\u{fffd}');
            lemma_replacement_fits(codec, '?');
        }
        let mut encoder = Self {
            codec,
            unmappable_action: UnmappableAction::Replace,
            replacement: Self::DEFAULT_REPLACEMENT,
            replacement_units: Vec::new(),
        };
        match encoder.encode_replacement(Self::DEFAULT_REPLACEMENT) {
            Ok(replacement_units) => {
                encoder.replacement = Self::DEFAULT_REPLACEMENT;
                encoder.replacement_units = replacement_units;
                encoder
            },
            Err(_) => match encoder.encode_replacement(Self::DEFAULT_FALLBACK_REPLACEMENT) {
                Ok(replacement_units) => {
                    encoder.replacement = Self::DEFAULT_FALLBACK_REPLACEMENT;
                    encoder.replacement_units = replacement_units;
                    encoder
                },
                Err(_) => vstd::pervasive::unreached(),
            },
        }
    }

    /// Returns this encoder with `replacement` as its replacement character, or the
    /// codec's error when it cannot encode `replacement`.
    pub fn with_replacement(self, replacement: char) -> (r: Result<Self, CharsetEncodeError>)
        ensures
            match Self::spec_encode_replacement(self.spec_codec(), replacement) {
                Ok(units) => r matches Ok(e) && e.spec_codec() == self.spec_codec()
                    && e.spec_unmappable_action() == self.spec_unmappable_action()
                    && e.spec_replacement() == replacement && e.spec_replacement_units() == units,
                Err(err) => r == Err::<Self, CharsetEncodeError>(err),
            },
    {
        let mut encoder = self;
        match encoder.encode_replacement(replacement) {
            Ok(replacement_units) => {
                encoder.replacement = replacement;
                encoder.replacement_units = replacement_units;
                Ok(encoder)
            },
            Err(error) => Err(error),
        }
    }

    /// Returns the wrapped low-level codec.
    pub fn codec(&self) -> (r: &C)
        ensures
            *r == self.spec_codec(),
    {
        &self.codec
    }

    /// Returns a mutable reference to the wrapped codec. The cached replacement units
    /// are kept as they are.
    pub fn codec_mut(&mut self) -> (r: &mut C)
        ensures
            *r == old(self).spec_codec(),
            final(self).spec_codec() == *final(r),
            final(self).spec_unmappable_action() == old(self).spec_unmappable_action(),
            final(self).spec_replacement() == old(self).spec_replacement(),
            final(self).spec_replacement_units() == old(self).spec_replacement_units(),
    {
        &mut self.codec
    }

    /// Returns the configured unmappable-character action.
    pub fn unmappable_action(&self) -> (r: UnmappableAction)
        ensures
            r == self.spec_unmappable_action(),
    {
        self.unmappable_action
    }

    /// Sets the unmappable-character action.
    pub fn set_unmappable_action(&mut self, action: UnmappableAction)
        ensures
            final(self).spec_codec() == old(self).spec_codec(),
            final(self).spec_unmappable_action() == action,
            final(self).spec_replacement() == old(self).spec_replacement(),
            final(self).spec_replacement_units() == old(self).spec_replacement_units(),
    {
        self.unmappable_action = action;
    }

    /// Returns the configured replacement character.
    pub fn replacement(&self) -> (r: char)
        ensures
            r == self.spec_replacement(),
    {
        self.replacement
    }

    /// Sets the replacement character, or returns the codec's error and leaves the
    /// encoder unchanged when the codec cannot encode it.
    pub fn set_replacement(&mut self, replacement: char) -> (r: Result<(), CharsetEncodeError>)
        ensures
            final(self).spec_codec() == old(self).spec_codec(),
            final(self).spec_unmappable_action() == old(self).spec_unmappable_action(),
            match Self::spec_encode_replacement(old(self).spec_codec(), replacement) {
                Ok(units) => r is Ok && final(self).spec_replacement() == replacement
                    && final(self).spec_replacement_units() == units,
                Err(err) => r == Err::<(), CharsetEncodeError>(err) && final(self).spec_replacement()
                    == old(self).spec_replacement() && final(self).spec_replacement_units()
                    == old(self).spec_replacement_units(),
            },
    {
        match self.encode_replacement(replacement) {
            Ok(replacement_units) => {
                self.replacement = replacement;
                self.replacement_units = replacement_units;
                Ok(())
            },
            Err(error) => Err(error),
        }
    }

    /// Encodes a replacement character into a scratch buffer and returns its units.
    fn encode_replacement(&self, ch: char) -> (r: CharsetEncodeResult<Vec<C::Unit>>)
        ensures
            match Self::spec_encode_replacement(self.spec_codec(), ch) {
                Ok(units) => r matches Ok(v) && v@ == units,
                Err(e) => r == Err::<Vec<C::Unit>, CharsetEncodeError>(e),
            },
    {
        let max_units = self.codec.max_units_per_char();
        let size = if max_units < 1 {
            1
        } else {
            max_units
        };
        let mut output: Vec<C::Unit> = vec![C::Unit::default(); size];
        proof {
            self.codec.lemma_encode_one_fits(ch, size, 0);
        }
        let written = match self.encode_char_to_units(ch, output.as_mut_slice(), 0) {
            Ok(written) => written,
            Err(error) => return Err(error),
        };
        output.truncate(written);
        Ok(output)
    }

    /// Encodes one character into `output` at `output_index` through the codec.
    fn encode_char_to_units(&self, ch: char, output: &mut [C::Unit], output_index: usize) -> (r:
        CharsetEncodeResult<usize>)
        ensures
            match self.spec_codec().spec_encode_one(ch, old(output)@.len() as usize, output_index) {
                Ok(units) => r == Ok::<usize, CharsetEncodeError>(units.len() as usize)
                    && final(output)@ == splice(old(output)@, output_index as int, units),
                Err(e) => r == Err::<usize, CharsetEncodeError>(e) && final(output)@ == old(
                    output,
                )@,
            },
    {
        self.codec.encode_one(ch, output, output_index)
    }

    /// Writes the cached replacement units into `output` at `output_index`.
    fn write_replacement(&self, output: &mut [C::Unit], output_index: usize) -> (r:
        CharsetEncodeResult<usize>)
        requires
            output_index <= old(output)@.len(),
        ensures
            match spec_write_replacement(
                self.spec_codec().spec_charset(),
                self.spec_replacement_units(),
                old(output)@.len() as usize,
                output_index,
            ) {
                Ok(units) => r == Ok::<usize, CharsetEncodeError>(units.len() as usize)
                    && final(output)@ == splice(old(output)@, output_index as int, units),
                Err(e) => r == Err::<usize, CharsetEncodeError>(e) && final(output)@ == old(
                    output,
                )@,
            },
    {
        let n = self.replacement_units.len();
        let available = output.len().saturating_sub(output_index);
        if available < n {
            let kind = CharsetEncodeErrorKind::BufferTooSmall {
                required: output_index.saturating_add(n),
                available,
            };
            return Err(CharsetEncodeError::new(self.codec.charset(), kind, output_index));
        }
        if n == 0 {
            assert(output@ =~= splice(old(output)@, output_index as int, self.replacement_units@));
            return Ok(0);
        }
        let mut i: usize = 0;
        while i < n
            invariant
                n == self.replacement_units@.len(),
                output_index + n <= old(output)@.len(),
                output_index + n <= usize::MAX,
                output@.len() == old(output)@.len(),
                i <= n,
                output@ == splice(
                    old(output)@,
                    output_index as int,
                    self.replacement_units@.subrange(0, i as int),
                ),
            decreases n - i,
        {
            output[output_index + i] = self.replacement_units[i];
            i = i + 1;
            assert(output@ =~= splice(
                old(output)@,
                output_index as int,
                self.replacement_units@.subrange(0, i as int),
            ));
        }
        assert(self.replacement_units@.subrange(0, n as int) =~= self.replacement_units@);
        Ok(n)
    }
}

impl<C: CharsetCodec + PartialEq> PartialEq for CharsetEncoder<C> {
    /// Compares the configuration: codec, unmappable action and replacement character.
    fn eq(&self, other: &Self) -> (r: bool) {
        self.codec == other.codec && self.unmappable_action == other.unmappable_action
            && self.replacement == other.replacement
    }
}

impl<C: CharsetCodec + PartialEq> PartialEqSpecImpl for CharsetEncoder<C> {
    open spec fn obeys_eq_spec() -> bool {
        <C as PartialEqSpec>::obeys_eq_spec()
    }

    open spec fn eq_spec(&self, other: &Self) -> bool {
        &&& self.spec_codec().eq_spec(&other.spec_codec())
        &&& self.spec_unmappable_action() == other.spec_unmappable_action()
        &&& self.spec_replacement() == other.spec_replacement()
    }
}

impl<C: CharsetCodec + Eq> Eq for CharsetEncoder<C> {

}

impl<C: CharsetCodec> Coder<char, C::Unit> for CharsetEncoder<C> {
    type Error = CharsetEncodeError;

    /// The number of characters times the codec's maximum units per character, or
    /// `None` when that product overflows.
    fn max_output_len(&self, input_len: usize) -> (r: Option<usize>)
        ensures
            r == (if input_len * self.spec_codec().spec_max_units_per_char() <= usize::MAX {
                Some((input_len * self.spec_codec().spec_max_units_per_char()) as usize)
            } else {
                None::<usize>
            }),
    {
        input_len.checked_mul(self.codec.max_units_per_char())
    }

    /// An encoder keeps no state between calls.
    fn reset(&mut self)
        ensures
            *final(self) == *old(self),
    {
    }

    /// Encodes characters into the target charset while applying the unmappable policy.
    fn convert(
        &mut self,
        input: &[char],
        input_index: usize,
        output: &mut [C::Unit],
        output_index: usize,
    ) -> (r: Result<CoderProgress, CharsetEncodeError>)
        ensures
            *final(self) == *old(self),
            ({
                let (res, units) = old(self).spec_convert(
                    input@,
                    input_index,
                    old(output)@.len() as usize,
                    output_index,
                );
                &&& r == res
                &&& units.len() == 0 ==> final(output)@ == old(output)@
                &&& units.len() > 0 ==> final(output)@ == splice(
                    old(output)@,
                    output_index as int,
                    units,
                )
            }),
    {
        if input_index > input.len() {
            let kind = CharsetEncodeErrorKind::InvalidInputIndex { input_len: input.len() };
            return Err(CharsetEncodeError::new(self.codec.charset(), kind, input_index));
        }
        if output_index > output.len() {
            let status = CoderStatus::NeedOutput { output_index, required: 1, available: 0 };
            return Ok(CoderProgress::new(status, 0, 0));
        }
        let ghost codec = self.codec;
        let ghost action = self.unmappable_action;
        let ghost rep = self.replacement_units@;
        let ghost output_len = output@.len() as usize;
        let ghost mut units: Seq<C::Unit> = Seq::empty();
        let mut input_cursor = input_index;
        let mut output_cursor = output_index;
        assert(output@ =~= splice(old(output)@, output_index as int, units));
        while input_cursor < input.len()
            invariant
                *self == *old(self),
                codec == self.codec,
                action == self.unmappable_action,
                rep == self.replacement_units@,
                output_len == old(output)@.len(),
                output@.len() == output_len,
                input_index <= input_cursor <= input@.len(),
                output_index <= output_cursor <= output_len,
                output_cursor == output_index + units.len(),
                output@ == splice(old(output)@, output_index as int, units),
                old(self).spec_convert(input@, input_index, output_len, output_index)
                    == spec_encode_run(
                    codec,
                    action,
                    rep,
                    input@,
                    input_index,
                    output_index,
                    output_len,
                    input_cursor,
                    units,
                ),
            decreases input@.len() - input_cursor,
        {
            let ch = input[input_cursor];
            let ghost before = output@;
            proof {
                codec.lemma_encode_one_fits(ch, output_len, output_cursor);
            }
            let attempt = match self.encode_char_to_units(ch, output, output_cursor) {
                Ok(written) => Ok(written),
                Err(error) => match error.kind() {
                    CharsetEncodeErrorKind::UnmappableCharacter { .. } => {
                        match self.unmappable_action {
                            UnmappableAction::Report => {
                                let kind = CharsetEncodeErrorKind::UnmappableCharacter {
                                    value: ch as u32,
                                };
                                Err(CharsetEncodeError::new(self.codec.charset(), kind, input_cursor))
                            },
                            UnmappableAction::Ignore => Ok(0),
                            UnmappableAction::Replace => self.write_replacement(
                                output,
                                output_cursor,
                            ),
                        }
                    },
                    CharsetEncodeErrorKind::BufferTooSmall { .. }
                    | CharsetEncodeErrorKind::InvalidInputIndex { .. }
                    | CharsetEncodeErrorKind::InvalidCodePoint { .. } => Err(error),
                },
            };
            let ghost step = spec_encode_step(
                codec,
                action,
                rep,
                ch,
                input_cursor,
                output_len,
                output_cursor,
            );
            match attempt {
                Ok(written) => {
                    proof {
                        assert(step is Ok);
                        let s = step->Ok_0;
                        assert(written == s.len());
                        assert(output@ == splice(before, output_cursor as int, s));
                        assert(output@ =~= splice(old(output)@, output_index as int, units + s));
                        units = units + s;
                    }
                    input_cursor = input_cursor + 1;
                    output_cursor = output_cursor + written;
                },
                Err(error) => {
                    let too_small = match error.kind() {
                        CharsetEncodeErrorKind::BufferTooSmall { .. } => true,
                        _ => false,
                    };
                    if too_small {
                        let required = match error.required() {
                            Some(required) => required,
                            None => output_cursor + 1,
                        }.saturating_sub(output_cursor);
                        let available = match error.available() {
                            Some(available) => available,
                            None => 0,
                        };
                        let status = CoderStatus::NeedOutput {
                            output_index: output_cursor,
                            required,
                            available,
                        };
                        return Ok(
                            CoderProgress::new(
                                status,
                                input_cursor - input_index,
                                output_cursor - output_index,
                            ),
                        );
                    }
                    return Err(error);
                },
            }
        }
        Ok(CoderProgress::complete(input_cursor - input_index, output_cursor - output_index))
    }

    /// An encoder has nothing to flush.
    fn finish(&mut self, output: &mut [C::Unit], output_index: usize) -> (r: Result<
        CoderProgress,
        CharsetEncodeError,
    >)
        ensures
            *final(self) == *old(self),
            final(output)@ == old(output)@,
            r == Ok::<CoderProgress, CharsetEncodeError>(CoderProgress::spec_complete(0, 0)),
    {
        Ok(CoderProgress::complete(0, 0))
    }
}

} // verus!

verus! {

/// An encoder run only appends units, stays inside the input and the output, reports
/// as written exactly the units it wrote, writes units only for characters it read,
/// either completes or asks for output, asks for output only before the end of the
/// input, and reports completion only after reading the whole input.
pub proof fn lemma_encode_run_counts<C: CharsetCodec>(
    codec: C,
    action: UnmappableAction,
    replacement_units: Seq<C::Unit>,
    input: Seq<char>,
    input_index: usize,
    output_index: usize,
    output_len: usize,
    cursor: usize,
    units: Seq<C::Unit>,
)
    requires
        input_index <= cursor <= input.len() <= usize::MAX,
        output_index + units.len() <= output_len,
    ensures
        ({
            let (res, out) = spec_encode_run(
                codec,
                action,
                replacement_units,
                input,
                input_index,
                output_index,
                output_len,
                cursor,
                units,
            );
            &&& out.len() >= units.len()
            &&& out.subrange(0, units.len() as int) == units
            &&& output_index + out.len() <= output_len
            &&& res matches Ok(p) ==> {
                &&& p.spec_written() == out.len()
                &&& input_index + p.spec_read() <= input.len()
                &&& p.spec_status() is Complete ==> input_index + p.spec_read() == input.len()
                &&& p.spec_status() is Complete || p.spec_status() is NeedOutput
                &&& p.spec_read() >= cursor - input_index
                &&& out.len() > units.len() ==> p.spec_read() > cursor - input_index
                &&& p.spec_status() is NeedOutput ==> input_index + p.spec_read() < input.len()
            }
        }),
    decreases input.len() - cursor,
{
    broadcast use super::coder_progress::lemma_progress_parts;

    let out_cursor = (output_index + units.len()) as usize;
    assert(units.subrange(0, units.len() as int) =~= units);
    if cursor >= input.len() {
    } else {
        let ch = input[cursor as int];
        codec.lemma_encode_one_fits(ch, output_len, out_cursor);
        let step = spec_encode_step(
            codec,
            action,
            replacement_units,
            ch,
            cursor,
            output_len,
            out_cursor,
        );
        match step {
            Ok(s) => {
                assert(out_cursor + s.len() <= output_len);
                let next = units + s;
                lemma_encode_run_counts(
                    codec,
                    action,
                    replacement_units,
                    input,
                    input_index,
                    output_index,
                    output_len,
                    (cursor + 1) as usize,
                    next,
                );
                let out = spec_encode_run(
                    codec,
                    action,
                    replacement_units,
                    input,
                    input_index,
                    output_index,
                    output_len,
                    (cursor + 1) as usize,
                    next,
                ).1;
                assert(out.subrange(0, units.len() as int) =~= out.subrange(
                    0,
                    next.len() as int,
                ).subrange(0, units.len() as int));
                assert(next.subrange(0, units.len() as int) =~= units);
            },
            Err(e) => {},
        }
    }
}

/// A successful encoder call reports as written exactly the units it writes, writes
/// units only when it read characters, stays inside the output, either completes or
/// asks for output, asks for output only before the end of a nonempty rest of input,
/// and reports completion only after reading the whole input.
pub proof fn lemma_encoder_convert_counts<C: CharsetCodec>(
    encoder: CharsetEncoder<C>,
    input: Seq<char>,
    input_index: usize,
    output_len: usize,
    output_index: usize,
)
    requires
        input.len() <= usize::MAX,
    ensures
        ({
            let (res, units) = encoder.spec_convert(input, input_index, output_len, output_index);
            &&& units.len() > 0 ==> output_index + units.len() <= output_len
            &&& res matches Ok(p) ==> {
                &&& p.spec_written() == units.len()
                &&& input_index + p.spec_read() <= input.len()
                &&& p.spec_status() is Complete ==> input_index + p.spec_read() == input.len()
                &&& p.spec_status() is Complete || p.spec_status() is NeedOutput
                &&& p.spec_written() > 0 ==> p.spec_read() > 0
                &&& p.spec_status() is NeedOutput && input_index < input.len() ==> input_index
                    + p.spec_read() < input.len()
                &&& encoder.spec_replacement_units().len()
                    <= encoder.spec_codec().spec_max_units_per_char() ==> p.spec_written()
                    <= p.spec_read() * encoder.spec_codec().spec_max_units_per_char()
            }
        }),
{
    broadcast use super::coder_progress::lemma_progress_parts;

    if input_index <= input.len() && output_index <= output_len {
        lemma_encode_run_counts(
            encoder.spec_codec(),
            encoder.spec_unmappable_action(),
            encoder.spec_replacement_units(),
            input,
            input_index,
            output_index,
            output_len,
            input_index,
            Seq::empty(),
        );
        if encoder.spec_replacement_units().len() <= encoder.spec_codec().spec_max_units_per_char() {
            lemma_encode_run_bounded(
                encoder.spec_codec(),
                encoder.spec_unmappable_action(),
                encoder.spec_replacement_units(),
                input,
                input_index,
                output_index,
                output_len,
                input_index,
                Seq::empty(),
            );
        }
    }
}

/// The units that encoding a replacement character gives are no more than one
/// character may take.
pub proof fn lemma_replacement_fits<C: CharsetCodec>(codec: C, ch: char)
    ensures
        CharsetEncoder::<C>::spec_encode_replacement(codec, ch) matches Ok(units) ==> units.len()
            <= codec.spec_max_units_per_char(),
{
    codec.lemma_encode_one_fits(ch, spec_scratch_len(codec.spec_max_units_per_char()), 0);
}

/// With replacement units no longer than one character may take, an encoder run writes
/// at most that many units for each character it reads.
pub proof fn lemma_encode_run_bounded<C: CharsetCodec>(
    codec: C,
    action: UnmappableAction,
    replacement_units: Seq<C::Unit>,
    input: Seq<char>,
    input_index: usize,
    output_index: usize,
    output_len: usize,
    cursor: usize,
    units: Seq<C::Unit>,
)
    requires
        input_index <= cursor <= input.len() <= usize::MAX,
        output_index + units.len() <= output_len,
        replacement_units.len() <= codec.spec_max_units_per_char(),
        units.len() <= (cursor - input_index) * codec.spec_max_units_per_char(),
    ensures
        ({
            let (res, out) = spec_encode_run(
                codec,
                action,
                replacement_units,
                input,
                input_index,
                output_index,
                output_len,
                cursor,
                units,
            );
            res matches Ok(p) ==> p.spec_written() <= p.spec_read()
                * codec.spec_max_units_per_char()
        }),
    decreases input.len() - cursor,
{
    broadcast use super::coder_progress::lemma_progress_parts;

    let max = codec.spec_max_units_per_char();
    let out_cursor = (output_index + units.len()) as usize;
    if cursor < input.len() {
        let ch = input[cursor as int];
        codec.lemma_encode_one_fits(ch, output_len, out_cursor);
        let step = spec_encode_step(
            codec,
            action,
            replacement_units,
            ch,
            cursor,
            output_len,
            out_cursor,
        );
        if let Ok(s) = step {
            if out_cursor + s.len() <= output_len {
                assert(s.len() <= max);
                let k = cursor - input_index;
                assert(k * max + max == (k + 1) * max) by (nonlinear_arith);
                lemma_encode_run_bounded(
                    codec,
                    action,
                    replacement_units,
                    input,
                    input_index,
                    output_index,
                    output_len,
                    (cursor + 1) as usize,
                    units + s,
                );
            }
        }
    }
}

} // verus!
