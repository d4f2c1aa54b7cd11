use vstd::prelude::*;

use super::charset_decode_error_kind::CharsetDecodeErrorKind;
use crate::encoding::Charset;

verus! {

/// Error reported by a charset decoder.
///
/// The error carries the charset, the error kind, and the input unit index at which the
/// failure was detected.
#[derive(Clone, Copy, Debug)]
pub struct CharsetDecodeError {
    /// Charset being decoded when this error was detected.
    charset: Charset,
    /// Failure category describing the decoding error.
    kind: CharsetDecodeErrorKind,
    /// Input unit index at which decoding failure occurred.
    index: usize,
}

/// Result type returned by charset decoders.
pub type CharsetDecodeResult<T> = Result<T, CharsetDecodeError>;

impl CharsetDecodeError {
    /// The charset of this error.
    pub closed spec fn spec_charset(self) -> Charset {
        self.charset
    }

    /// The kind of this error.
    pub closed spec fn spec_kind(self) -> CharsetDecodeErrorKind {
        self.kind
    }

    /// The input index of this error.
    pub closed spec fn spec_index(self) -> usize {
        self.index
    }

    /// The error with the given charset, kind and index.
    pub closed spec fn spec_new(charset: Charset, kind: CharsetDecodeErrorKind, index: usize) -> Self {
        CharsetDecodeError { charset, kind, index }
    }

    /// A malformed-sequence error without a captured value.
    pub open spec fn spec_malformed_sequence(charset: Charset, index: usize) -> Self {
        Self::spec_new(charset, CharsetDecodeErrorKind::MalformedSequence { value: None }, index)
    }

    /// A malformed-sequence error capturing the offending unit value.
    pub open spec fn spec_malformed_value(charset: Charset, index: usize, value: u32) -> Self {
        Self::spec_new(
            charset,
            CharsetDecodeErrorKind::MalformedSequence { value: Some(value) },
            index,
        )
    }

    /// An invalid-code-point error.
    pub open spec fn spec_invalid_code_point(charset: Charset, index: usize, value: u32) -> Self {
        Self::spec_new(charset, CharsetDecodeErrorKind::InvalidCodePoint { value }, index)
    }

    /// Creates a decoding error from a charset, a kind and an input index.
    #[verifier::when_used_as_spec(spec_new)]
    pub fn new(charset: Charset, kind: CharsetDecodeErrorKind, index: usize) -> (r: Self)
        ensures
            r == Self::spec_new(charset, kind, index),
    {
        Self { charset, kind, index }
    }

    /// Creates a malformed-sequence error without a captured value.
    pub fn malformed_sequence(charset: Charset, index: usize) -> (r: Self)
        ensures
            r == Self::spec_malformed_sequence(charset, index),
    {
        Self::new(charset, CharsetDecodeErrorKind::MalformedSequence { value: None }, index)
    }

    /// Creates an invalid-code-point error for the decoded raw `value`.
    pub fn invalid_code_point(charset: Charset, index: usize, value: u32) -> (r: Self)
        ensures
            r == Self::spec_invalid_code_point(charset, index, value),
    {
        Self::new(charset, CharsetDecodeErrorKind::InvalidCodePoint { value }, index)
    }

    /// Returns the charset being decoded.
    pub fn charset(self) -> (r: Charset)
        ensures
            r == self.spec_charset(),
    {
        self.charset
    }

    /// Returns the decoding error kind.
    pub fn kind(self) -> (r: CharsetDecodeErrorKind)
        ensures
            r == self.spec_kind(),
    {
        self.kind
    }

    /// Returns the input unit index at which the error was detected.
    pub fn index(self) -> (r: usize)
        ensures
            r == self.spec_index(),
    {
        self.index
    }

    /// Returns the required unit count of an incomplete-sequence error, `None` otherwise.
    pub fn required(self) -> (r: Option<usize>)
        ensures
            r == self.spec_kind().spec_required(),
    {
        self.kind.required()
    }

    /// Returns the available unit count of an incomplete-sequence error, `None` otherwise.
    pub fn available(self) -> (r: Option<usize>)
        ensures
            r == self.spec_kind().spec_available(),
    {
        self.kind.available()
    }

    /// Returns the raw unit or code point value carried by the error kind, if any.
    pub fn value(self) -> (r: Option<u32>)
        ensures
            r == self.spec_kind().spec_value(),
    {
        self.kind.value()
    }

    /// Returns a copy of this error with its index shifted by `base`.
    pub fn offset_by(self, base: usize) -> (r: Self)
        requires
            self.spec_index() + base <= usize::MAX,
        ensures
            r == Self::spec_new(
                self.spec_charset(),
                self.spec_kind(),
                (self.spec_index() + base) as usize,
            ),
    {
        Self { charset: self.charset, kind: self.kind, index: self.index + base }
    }
}

/// A decoding error built from a charset, a kind and an index reports exactly those
/// three parts.
pub broadcast proof fn lemma_decode_error_parts(
    charset: Charset,
    kind: CharsetDecodeErrorKind,
    index: usize,
)
    ensures
        (#[trigger] CharsetDecodeError::spec_new(charset, kind, index)).spec_charset() == charset,
        CharsetDecodeError::spec_new(charset, kind, index).spec_kind() == kind,
        CharsetDecodeError::spec_new(charset, kind, index).spec_index() == index,
{
}

impl PartialEq for CharsetDecodeError {
    /// Compares errors by charset identity, kind and index.
    fn eq(&self, other: &Self) -> (r: bool) {
        self.charset.eq(&other.charset) && self.kind == other.kind && self.index == other.index
    }
}

impl vstd::std_specs::cmp::PartialEqSpecImpl for CharsetDecodeError {
    open spec fn obeys_eq_spec() -> bool {
        true
    }

    open spec fn eq_spec(&self, other: &Self) -> bool {
        &&& self.spec_charset().spec_id()@ == other.spec_charset().spec_id()@
        &&& self.spec_kind() == other.spec_kind()
        &&& self.spec_index() == other.spec_index()
    }
}

impl Eq for CharsetDecodeError {

}

/// An decoding error is determined by its charset, kind and index, so shifting it by
/// zero gives it back.
pub proof fn lemma_decode_error_from_parts(error: CharsetDecodeError)
    ensures
        CharsetDecodeError::spec_new(error.spec_charset(), error.spec_kind(), error.spec_index()) == error,
{
}

} // verus!
