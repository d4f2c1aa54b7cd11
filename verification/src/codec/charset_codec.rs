use vstd::prelude::*;

use super::decode_status::DecodeStatus;
use crate::encoding::Charset;
use crate::error::{CharsetDecodeResult, CharsetEncodeResult};

verus! {

/// `s` with `t` written over it starting at `at`.
pub open spec fn splice<T>(s: Seq<T>, at: int, t: Seq<T>) -> Seq<T> {
    s.subrange(0, at) + t + s.subrange(at + t.len(), s.len() as int)
}

/// Low-level charset algorithm for one storage-unit representation.
///
/// `CharsetCodec` performs only primitive per-character encoding and decoding. Policy
/// decisions such as replacement, ignoring malformed input, or reporting unmappable
/// characters are handled by [`crate::CharsetDecoder`] and [`crate::CharsetEncoder`].
pub trait CharsetCodec {
    /// Storage unit of the encoded representation, such as `u8`, `u16` or `u32`.
    type Unit: Copy + Default + std::fmt::Debug;

    /// The charset handled by this codec.
    spec fn spec_charset(&self) -> Charset;

    /// The maximum number of units needed for one character.
    spec fn spec_max_units_per_char(&self) -> usize;

    /// What decoding one character from `input` at `index` gives.
    spec fn spec_decode_one(&self, input: Seq<Self::Unit>, index: usize) -> CharsetDecodeResult<
        DecodeStatus,
    >;

    /// What encoding `ch` at `index` into an output of `output_len` units gives: the units
    /// written, or the error.
    spec fn spec_encode_one(&self, ch: char, output_len: usize, index: usize) -> CharsetEncodeResult<
        Seq<Self::Unit>,
    >;

    /// A complete decode starts inside the input and consumes at least one and at most
    /// the available units; an incomplete one reports the units available from `index`
    /// and, below the largest length, an absolute required length beyond the input.
    proof fn lemma_decode_one_progress(&self, input: Seq<Self::Unit>, index: usize)
        ensures
            self.spec_decode_one(input, index) matches Ok(DecodeStatus::Complete { consumed, .. })
                ==> 1 <= consumed && index + consumed <= input.len(),
            self.spec_decode_one(input, index) matches Ok(
                DecodeStatus::NeedMore { required, available },
            ) ==> {
                &&& index <= input.len()
                &&& available == input.len() - index
                &&& input.len() < usize::MAX ==> required > input.len()
            },
    ;

    /// A successful encode writes inside the output, and at most as many units as one
    /// character may take.
    proof fn lemma_encode_one_fits(&self, ch: char, output_len: usize, index: usize)
        ensures
            self.spec_encode_one(ch, output_len, index) matches Ok(units) ==> index + units.len()
                <= output_len && units.len() <= self.spec_max_units_per_char(),
    ;

    /// The units that encoding `ch` writes are not empty, and decoding them back, wherever
    /// they stand in an input, gives `ch` and consumes exactly them.
    proof fn lemma_encode_then_decode(
        &self,
        ch: char,
        output_len: usize,
        index: usize,
        input: Seq<Self::Unit>,
        at: usize,
    )
        requires
            self.spec_encode_one(ch, output_len, index) is Ok,
            at + self.spec_encode_one(ch, output_len, index)->Ok_0.len() <= input.len(),
            input.subrange(at as int, at + self.spec_encode_one(ch, output_len, index)->Ok_0.len())
                == self.spec_encode_one(ch, output_len, index)->Ok_0,
        ensures
            self.spec_encode_one(ch, output_len, index)->Ok_0.len() >= 1,
            self.spec_decode_one(input, at) == Ok::<DecodeStatus, crate::error::CharsetDecodeError>(
                DecodeStatus::Complete {
                    value: ch,
                    consumed: self.spec_encode_one(ch, output_len, index)->Ok_0.len() as usize,
                },
            ),
    ;

    /// A character that the input already decides, completely or as malformed, decodes
    /// the same whatever input follows, and a reported error lies inside the input.
    proof fn lemma_decode_one_extends(&self, input: Seq<Self::Unit>, more: Seq<Self::Unit>, index: usize)
        requires
            index < input.len(),
            !(self.spec_decode_one(input, index) matches Ok(DecodeStatus::NeedMore { .. })),
        ensures
            self.spec_decode_one(input + more, index) == self.spec_decode_one(input, index),
            self.spec_decode_one(input, index) matches Err(e) ==> e.spec_index() < input.len(),
    ;

    /// Encoding a character that fits, or that the charset cannot represent, gives the
    /// same result in any larger output.
    proof fn lemma_encode_one_grows(&self, ch: char, output_len: usize, larger: usize, index: usize)
        requires
            output_len <= larger,
            !(self.spec_encode_one(ch, output_len, index) matches Err(e) && e.spec_kind() is BufferTooSmall),
        ensures
            self.spec_encode_one(ch, larger, index) == self.spec_encode_one(ch, output_len, index),
    ;

    /// Returns the charset handled by this codec.
    fn charset(&self) -> (r: Charset)
        ensures
            r == self.spec_charset(),
    ;

    /// Returns the maximum number of storage units needed for one character.
    fn max_units_per_char(&self) -> (r: usize)
        ensures
            r == self.spec_max_units_per_char(),
    ;

    /// Decodes one Unicode scalar value from `input` starting at `index`.
    fn decode_one(&self, input: &[Self::Unit], index: usize) -> (r: CharsetDecodeResult<
        DecodeStatus,
    >)
        ensures
            r == self.spec_decode_one(input@, index),
    ;

    /// Encodes one Unicode scalar value into `output` starting at `index` and returns the
    /// number of units written. On error the output is left unchanged.
    fn encode_one(&self, ch: char, output: &mut [Self::Unit], index: usize) -> (r:
        CharsetEncodeResult<usize>)
        ensures
            match self.spec_encode_one(ch, old(output)@.len() as usize, index) {
                Ok(units) => r == Ok::<usize, crate::error::CharsetEncodeError>(units.len() as usize)
                    && final(output)@ == splice(old(output)@, index as int, units),
                Err(e) => r == Err::<usize, crate::error::CharsetEncodeError>(e) && final(output)@
                    == old(output)@,
            },
    ;
}

} // verus!
