use vstd::prelude::*;

verus! {

/// Classifies failures detected while encoding Unicode text into encoded units.
#[derive(Clone, Copy, Debug, Eq, PartialEq, Structural)]
pub enum CharsetEncodeErrorKind {
    /// The supplied code point is not a valid Unicode scalar value.
    InvalidCodePoint {
        /// Raw code point value reported by the codec.
        value: u32,
    },
    /// The requested input character index is outside the input buffer.
    InvalidInputIndex {
        /// Length of the input provided to the codec call.
        input_len: usize,
    },
    /// The character cannot be represented by the target encoding.
    UnmappableCharacter {
        /// Raw character value that cannot be represented.
        value: u32,
    },
    /// The supplied output buffer is too small for the encoded character.
    BufferTooSmall {
        /// Total units required to encode the character.
        required: usize,
        /// Total units currently available for the requested output index.
        available: usize,
    },
}

impl CharsetEncodeErrorKind {
    /// The raw value carried by this kind, if any.
    pub open spec fn spec_value(self) -> Option<u32> {
        match self {
            CharsetEncodeErrorKind::InvalidCodePoint { value } => Some(value),
            CharsetEncodeErrorKind::UnmappableCharacter { value } => Some(value),
            _ => None,
        }
    }

    /// The required unit count carried by a buffer-too-small kind.
    pub open spec fn spec_required(self) -> Option<usize> {
        match self {
            CharsetEncodeErrorKind::BufferTooSmall { required, .. } => Some(required),
            _ => None,
        }
    }

    /// The available unit count carried by a buffer-too-small kind.
    pub open spec fn spec_available(self) -> Option<usize> {
        match self {
            CharsetEncodeErrorKind::BufferTooSmall { available, .. } => Some(available),
            _ => None,
        }
    }

    /// The input length carried by an invalid-input-index kind.
    pub open spec fn spec_input_len(self) -> Option<usize> {
        match self {
            CharsetEncodeErrorKind::InvalidInputIndex { input_len } => Some(input_len),
            _ => None,
        }
    }

    /// Returns the value of [`Self::InvalidCodePoint`] and [`Self::UnmappableCharacter`],
    /// `None` for other kinds.
    pub fn value(self) -> (r: Option<u32>)
        ensures
            r == self.spec_value(),
    {
        match self {
            Self::InvalidCodePoint { value, .. } => Some(value),
            Self::UnmappableCharacter { value, .. } => Some(value),
            Self::BufferTooSmall { .. } | Self::InvalidInputIndex { .. } => None,
        }
    }

    /// Returns `Some(required)` for [`Self::BufferTooSmall`] and `None` otherwise.
    pub fn required(self) -> (r: Option<usize>)
        ensures
            r == self.spec_required(),
    {
        match self {
            Self::BufferTooSmall { required, .. } => Some(required),
            Self::InvalidInputIndex { .. }
            | Self::InvalidCodePoint { .. }
            | Self::UnmappableCharacter { .. } => None,
        }
    }

    /// Returns `Some(available)` for [`Self::BufferTooSmall`] and `None` otherwise.
    pub fn available(self) -> (r: Option<usize>)
        ensures
            r == self.spec_available(),
    {
        match self {
            Self::BufferTooSmall { available, .. } => Some(available),
            Self::InvalidInputIndex { .. }
            | Self::InvalidCodePoint { .. }
            | Self::UnmappableCharacter { .. } => None,
        }
    }

    /// Returns `Some(input_len)` for [`Self::InvalidInputIndex`] and `None` otherwise.
    pub fn input_len(self) -> (r: Option<usize>)
        ensures
            r == self.spec_input_len(),
    {
        match self {
            Self::InvalidInputIndex { input_len } => Some(input_len),
            Self::InvalidCodePoint { .. }
            | Self::UnmappableCharacter { .. }
            | Self::BufferTooSmall { .. } => None,
        }
    }
}

} // verus!
