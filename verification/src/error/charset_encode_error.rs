use vstd::prelude::*;

use super::charset_encode_error_kind::CharsetEncodeErrorKind;
use crate::encoding::Charset;

verus! {

/// Error reported by a charset encoder.
///
/// The error carries the target charset, the error kind, and the operation index
/// associated with the failure.
#[derive(Clone, Copy, Debug)]
pub struct CharsetEncodeError {
    /// Charset being encoded when this error was detected.
    charset: Charset,
    /// Failure category describing why encoding could not proceed.
    kind: CharsetEncodeErrorKind,
    /// Output unit index or input character index where the failure occurred.
    index: usize,
}

/// Result type returned by charset encoders.
pub type CharsetEncodeResult<T> = Result<T, CharsetEncodeError>;

impl CharsetEncodeError {
    /// The charset of this error.
    pub closed spec fn spec_charset(self) -> Charset {
        self.charset
    }

    /// The kind of this error.
    pub closed spec fn spec_kind(self) -> CharsetEncodeErrorKind {
        self.kind
    }

    /// The operation index of this error.
    pub closed spec fn spec_index(self) -> usize {
        self.index
    }

    /// The error with the given charset, kind and index.
    pub closed spec fn spec_new(charset: Charset, kind: CharsetEncodeErrorKind, index: usize) -> Self {
        CharsetEncodeError { charset, kind, index }
    }

    /// A buffer-too-small error for a write starting at `index`: one more unit was
    /// required there (saturating) and none was available.
    pub open spec fn spec_buffer_too_small(charset: Charset, index: usize) -> Self {
        Self::spec_new(
            charset,
            CharsetEncodeErrorKind::BufferTooSmall {
                required: index.saturating_add(1),
                available: 0,
            },
            index,
        )
    }

    /// An unmappable-character error.
    pub open spec fn spec_unmappable_character(charset: Charset, index: usize, value: u32) -> Self {
        Self::spec_new(charset, CharsetEncodeErrorKind::UnmappableCharacter { value }, index)
    }

    /// An invalid-code-point error.
    pub open spec fn spec_invalid_code_point(charset: Charset, index: usize, value: u32) -> Self {
        Self::spec_new(charset, CharsetEncodeErrorKind::InvalidCodePoint { value }, index)
    }

    /// Creates a encoding error from a charset, a kind and an input index.
    #[verifier::when_used_as_spec(spec_new)]
    pub fn new(charset: Charset, kind: CharsetEncodeErrorKind, index: usize) -> (r: Self)
        ensures
            r == Self::spec_new(charset, kind, index),
    {
        Self { charset, kind, index }
    }

    /// Creates a buffer-too-small error for a write at `index` that found no room; the
    /// required count saturates at `usize::MAX`.
    pub fn buffer_too_small(charset: Charset, index: usize) -> (r: Self)
        ensures
            r == Self::spec_buffer_too_small(charset, index),
    {
        Self::new(
            charset,
            CharsetEncodeErrorKind::BufferTooSmall { required: index.saturating_add(1), available: 0 },
            index,
        )
    }

    /// Creates an unmappable-character error for the character value `value`.
    pub fn unmappable_character(charset: Charset, index: usize, value: u32) -> (r: Self)
        ensures
            r == Self::spec_unmappable_character(charset, index, value),
    {
        Self::new(charset, CharsetEncodeErrorKind::UnmappableCharacter { value }, index)
    }

    /// Creates an invalid-code-point error for the raw `value`.
    pub fn invalid_code_point(charset: Charset, index: usize, value: u32) -> (r: Self)
        ensures
            r == Self::spec_invalid_code_point(charset, index, value),
    {
        Self::new(charset, CharsetEncodeErrorKind::InvalidCodePoint { value }, index)
    }

    /// Returns the charset being encoded.
    pub fn charset(self) -> (r: Charset)
        ensures
            r == self.spec_charset(),
    {
        self.charset
    }

    /// Returns the encoding error kind.
    pub fn kind(self) -> (r: CharsetEncodeErrorKind)
        ensures
            r == self.spec_kind(),
    {
        self.kind
    }

    /// Returns the operation index associated with the error.
    pub fn index(self) -> (r: usize)
        ensures
            r == self.spec_index(),
    {
        self.index
    }

    /// Returns the required unit count of a buffer-too-small error, `None` otherwise.
    pub fn required(self) -> (r: Option<usize>)
        ensures
            r == self.spec_kind().spec_required(),
    {
        self.kind.required()
    }

    /// Returns the available unit count of a buffer-too-small error, `None` otherwise.
    pub fn available(self) -> (r: Option<usize>)
        ensures
            r == self.spec_kind().spec_available(),
    {
        self.kind.available()
    }

    /// Returns the raw unit or code point value carried by the error kind, if any.
    pub fn value(self) -> (r: Option<u32>)
        ensures
            r == self.spec_kind().spec_value(),
    {
        self.kind.value()
    }

    /// Returns a copy of this error with its index shifted by `base`.
    pub fn offset_by(self, base: usize) -> (r: Self)
        requires
            self.spec_index() + base <= usize::MAX,
        ensures
            r == Self::spec_new(
                self.spec_charset(),
                self.spec_kind(),
                (self.spec_index() + base) as usize,
            ),
    {
        Self { charset: self.charset, kind: self.kind, index: self.index + base }
    }
}

/// A encoding error built from a charset, a kind and an index reports exactly those
/// three parts.
pub broadcast proof fn lemma_encode_error_parts(
    charset: Charset,
    kind: CharsetEncodeErrorKind,
    index: usize,
)
    ensures
        (#[trigger] CharsetEncodeError::spec_new(charset, kind, index)).spec_charset() == charset,
        CharsetEncodeError::spec_new(charset, kind, index).spec_kind() == kind,
        CharsetEncodeError::spec_new(charset, kind, index).spec_index() == index,
{
}

impl PartialEq for CharsetEncodeError {
    /// Compares errors by charset identity, kind and index.
    fn eq(&self, other: &Self) -> (r: bool) {
        self.charset.eq(&other.charset) && self.kind == other.kind && self.index == other.index
    }
}

impl vstd::std_specs::cmp::PartialEqSpecImpl for CharsetEncodeError {
    open spec fn obeys_eq_spec() -> bool {
        true
    }

    open spec fn eq_spec(&self, other: &Self) -> bool {
        &&& self.spec_charset().spec_id()@ == other.spec_charset().spec_id()@
        &&& self.spec_kind() == other.spec_kind()
        &&& self.spec_index() == other.spec_index()
    }
}

impl Eq for CharsetEncodeError {

}

/// An encoding error is determined by its charset, kind and index, so shifting it by
/// zero gives it back.
pub proof fn lemma_encode_error_from_parts(error: CharsetEncodeError)
    ensures
        CharsetEncodeError::spec_new(error.spec_charset(), error.spec_kind(), error.spec_index()) == error,
{
}

} // verus!
