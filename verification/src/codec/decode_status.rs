use vstd::prelude::*;

verus! {

/// Non-error status reported after inspecting a decoder input prefix.
///
/// Values are reported for a decode call over a complete input slice and an absolute
/// start index. `Complete` advances by a positive number of units from that start index.
/// `NeedMore` reports an absolute required input length and the units available from
/// the same start index.
#[derive(Clone, Copy, Debug, Eq, PartialEq, Structural)]
pub enum DecodeStatus {
    /// A complete value was decoded from the prefix.
    Complete {
        /// The decoded Unicode scalar value.
        value: char,
        /// The number of input units consumed; positive and at most the units available
        /// from the decode start index.
        consumed: usize,
    },
    /// The current prefix is well-formed so far but incomplete.
    NeedMore {
        /// The absolute input length required to complete the current value.
        required: usize,
        /// The number of input units currently available from the start index.
        available: usize,
    },
}

} // verus!
