use vstd::prelude::*;

verus! {

/// Namespace for UTF-32 constants.
pub struct Utf32;

impl Utf32 {
    /// Number of UTF-32 code units needed for one Unicode scalar value.
    pub const MAX_UNITS_PER_CHAR: usize = 1;

    /// Number of serialized UTF-32 bytes needed for one Unicode scalar value.
    pub const MAX_BYTES_PER_CHAR: usize = 4;
}

} // verus!
