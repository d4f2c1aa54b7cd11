use vstd::prelude::*;

use super::charset_codec::splice;
use crate::charset::{is_scalar_spec, Unicode};
use crate::encoding::Charset;
use crate::error::{CharsetEncodeError, CharsetEncodeResult};

verus! {

/// Encodes one character at a time into a text buffer of units `T`.
pub trait TextEncoder<T> {
    /// The charset encoded.
    spec fn spec_charset(&self) -> Charset;

    /// The maximum number of units one character takes.
    spec fn spec_max_units_per_char(&self) -> usize;

    /// What encoding `ch` at `index` of an output of `output_len` units gives: the units
    /// written, or the error.
    spec fn spec_encode_char(&self, ch: char, output_len: usize, index: usize) -> CharsetEncodeResult<
        Seq<T>,
    >;

    /// Returns the charset encoded.
    fn charset(&self) -> (r: Charset)
        ensures
            r == self.spec_charset(),
    ;

    /// Returns the maximum number of units one character takes.
    fn max_units_per_char(&self) -> (r: usize)
        ensures
            r == self.spec_max_units_per_char(),
    ;

    /// Encodes `ch` into `output` at `index` and returns the number of units written;
    /// on error the output is left unchanged.
    fn encode_char(&self, ch: char, output: &mut [T], index: usize) -> (r: CharsetEncodeResult<
        usize,
    >)
        ensures
            match self.spec_encode_char(ch, old(output)@.len() as usize, index) {
                Ok(units) => r == Ok::<usize, CharsetEncodeError>(units.len() as usize)
                    && final(output)@ == splice(old(output)@, index as int, units),
                Err(e) => r == Err::<usize, CharsetEncodeError>(e) && final(output)@ == old(
                    output,
                )@,
            },
    ;

    /// Encodes the raw `code_point` into `output` at `index`; a value that is not a
    /// Unicode scalar value is an invalid-code-point error.
    fn encode_code_point(&self, code_point: u32, output: &mut [T], index: usize) -> (r:
        CharsetEncodeResult<usize>)
        ensures
            !is_scalar_spec(code_point) ==> r == Err::<usize, CharsetEncodeError>(
                CharsetEncodeError::spec_invalid_code_point(self.spec_charset(), index, code_point),
            ) && final(output)@ == old(output)@,
            is_scalar_spec(code_point) ==> match self.spec_encode_char(
                code_point as char,
                old(output)@.len() as usize,
                index,
            ) {
                Ok(units) => r == Ok::<usize, CharsetEncodeError>(units.len() as usize)
                    && final(output)@ == splice(old(output)@, index as int, units),
                Err(e) => r == Err::<usize, CharsetEncodeError>(e) && final(output)@ == old(
                    output,
                )@,
            },
    {
        match Unicode::to_char(code_point) {
            Some(ch) => {
                proof {
                    vstd::utf8::char_u32_cast(ch, code_point);
                }
                self.encode_char(ch, output, index)
            },
            None => Err(CharsetEncodeError::invalid_code_point(self.charset(), index, code_point)),
        }
    }
}

} // verus!
