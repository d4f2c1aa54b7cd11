use vstd::prelude::*;

use crate::error::{CharsetDecodeError, CharsetEncodeError};

verus! {

/// Error reported while converting between two charsets.
#[derive(Clone, Copy, Debug)]
pub enum CharsetConvertError {
    /// Source decoding failed.
    Decode(CharsetDecodeError),
    /// Target encoding failed.
    Encode(CharsetEncodeError),
}

impl From<CharsetDecodeError> for CharsetConvertError {
    /// Wraps a source decoding error.
    fn from(error: CharsetDecodeError) -> (r: Self) {
        CharsetConvertError::Decode(error)
    }
}

impl vstd::std_specs::convert::FromSpecImpl<CharsetDecodeError> for CharsetConvertError {
    open spec fn obeys_from_spec() -> bool {
        true
    }

    open spec fn from_spec(error: CharsetDecodeError) -> Self {
        CharsetConvertError::Decode(error)
    }
}

impl From<CharsetEncodeError> for CharsetConvertError {
    /// Wraps a target encoding error.
    fn from(error: CharsetEncodeError) -> (r: Self) {
        CharsetConvertError::Encode(error)
    }
}

impl vstd::std_specs::convert::FromSpecImpl<CharsetEncodeError> for CharsetConvertError {
    open spec fn obeys_from_spec() -> bool {
        true
    }

    open spec fn from_spec(error: CharsetEncodeError) -> Self {
        CharsetConvertError::Encode(error)
    }
}

impl PartialEq for CharsetConvertError {
    /// Compares the variant and the wrapped error.
    fn eq(&self, other: &Self) -> (r: bool) {
        match (self, other) {
            (CharsetConvertError::Decode(a), CharsetConvertError::Decode(b)) => a.eq(b),
            (CharsetConvertError::Encode(a), CharsetConvertError::Encode(b)) => a.eq(b),
            _ => false,
        }
    }
}

impl vstd::std_specs::cmp::PartialEqSpecImpl for CharsetConvertError {
    open spec fn obeys_eq_spec() -> bool {
        true
    }

    open spec fn eq_spec(&self, other: &Self) -> bool {
        match (*self, *other) {
            (CharsetConvertError::Decode(a), CharsetConvertError::Decode(b)) => {
                &&& a.spec_charset().spec_id()@ == b.spec_charset().spec_id()@
                &&& a.spec_kind() == b.spec_kind()
                &&& a.spec_index() == b.spec_index()
            },
            (CharsetConvertError::Encode(a), CharsetConvertError::Encode(b)) => {
                &&& a.spec_charset().spec_id()@ == b.spec_charset().spec_id()@
                &&& a.spec_kind() == b.spec_kind()
                &&& a.spec_index() == b.spec_index()
            },
            _ => false,
        }
    }
}

impl Eq for CharsetConvertError {

}

} // verus!
