mod charset_decode_error;
mod charset_decode_error_kind;
mod charset_encode_error;
mod charset_encode_error_kind;

pub use charset_decode_error::{
    lemma_decode_error_from_parts, lemma_decode_error_parts, CharsetDecodeError, CharsetDecodeResult,
};
pub use charset_decode_error_kind::CharsetDecodeErrorKind;
pub use charset_encode_error::{
    lemma_encode_error_from_parts, lemma_encode_error_parts, CharsetEncodeError, CharsetEncodeResult,
};
pub use charset_encode_error_kind::CharsetEncodeErrorKind;
