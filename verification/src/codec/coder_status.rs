use vstd::prelude::*;

verus! {

/// Reports why a [`crate::Coder`] stopped converting input.
#[derive(Clone, Copy, Debug, Eq, PartialEq, Structural)]
pub enum CoderStatus {
    /// All currently supplied input was consumed.
    Complete,
    /// More input is needed to complete the next output value.
    NeedInput {
        /// Absolute input index where the incomplete value starts.
        input_index: usize,
        /// Additional input units required.
        required: usize,
        /// Input units available at that index.
        available: usize,
    },
    /// More output capacity is needed before conversion can continue.
    NeedOutput {
        /// Absolute output index where writing stopped.
        output_index: usize,
        /// Additional output units required.
        required: usize,
        /// Output units available at that index.
        available: usize,
    },
}

} // verus!
