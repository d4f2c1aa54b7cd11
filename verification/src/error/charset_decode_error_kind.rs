use vstd::prelude::*;

verus! {

/// Classifies failures detected while decoding encoded units into Unicode text.
#[derive(Clone, Copy, Debug, Eq, PartialEq, Structural)]
#[allow(inconsistent_fields)]
pub enum CharsetDecodeErrorKind {
    /// The input units do not form a well-formed encoded sequence.
    MalformedSequence {
        /// Optional malformed raw value captured from the offending input unit.
        value: Option<u32>,
    },
    /// The closed input ended before a complete character was available.
    IncompleteSequence {
        /// Total units required to complete the current sequence.
        required: usize,
        /// Total units currently available from the start of the current sequence.
        available: usize,
    },
    /// The decoded numeric value is not a valid Unicode scalar value.
    InvalidCodePoint {
        /// Raw decoded code-point value.
        value: u32,
    },
}

impl CharsetDecodeErrorKind {
    /// The required unit count carried by an incomplete-sequence kind.
    pub open spec fn spec_required(self) -> Option<usize> {
        match self {
            CharsetDecodeErrorKind::IncompleteSequence { required, .. } => Some(required),
            _ => None,
        }
    }

    /// The available unit count carried by an incomplete-sequence kind.
    pub open spec fn spec_available(self) -> Option<usize> {
        match self {
            CharsetDecodeErrorKind::IncompleteSequence { available, .. } => Some(available),
            _ => None,
        }
    }

    /// The raw value carried by this kind, if any.
    pub open spec fn spec_value(self) -> Option<u32> {
        match self {
            CharsetDecodeErrorKind::MalformedSequence { value } => value,
            CharsetDecodeErrorKind::InvalidCodePoint { value } => Some(value),
            CharsetDecodeErrorKind::IncompleteSequence { .. } => None,
        }
    }

    /// Returns `Some(required)` for [`Self::IncompleteSequence`] and `None` otherwise.
    pub fn required(self) -> (r: Option<usize>)
        ensures
            r == self.spec_required(),
    {
        match self {
            Self::IncompleteSequence { required, .. } => Some(required),
            Self::MalformedSequence { .. } | Self::InvalidCodePoint { .. } => None,
        }
    }

    /// Returns `Some(available)` for [`Self::IncompleteSequence`] and `None` otherwise.
    pub fn available(self) -> (r: Option<usize>)
        ensures
            r == self.spec_available(),
    {
        match self {
            Self::IncompleteSequence { available, .. } => Some(available),
            Self::MalformedSequence { .. } | Self::InvalidCodePoint { .. } => None,
        }
    }

    /// Returns the malformed raw value when one was captured, the code point of an
    /// invalid-code-point kind, and `None` for an incomplete sequence.
    pub fn value(self) -> (r: Option<u32>)
        ensures
            r == self.spec_value(),
    {
        match self {
            Self::MalformedSequence { value } => value,
            Self::InvalidCodePoint { value } => Some(value),
            Self::IncompleteSequence { .. } => None,
        }
    }
}

} // verus!
