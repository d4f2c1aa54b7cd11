//! Buffer-oriented Unicode and charset codecs: ASCII, Latin-1, UTF-8, UTF-16 and UTF-32
//! decoding, encoding and conversion with explicit progress and error policy.
mod byte_order;
mod charset;
mod codec;
mod encoding;
mod error;

pub use byte_order::{
    lemma_read_then_u16_bytes, lemma_read_then_u32_bytes, lemma_u16_bytes_then_read,
    lemma_u32_bytes_then_read, ByteOrder,
};
pub use charset::{
    is_noncharacter_spec, is_scalar_spec, spec_compose_pair, spec_high_surrogate,
    spec_low_surrogate, spec_utf8_sequence_len, spec_utf8_width, Unicode, Utf16, Utf32, Utf8,
};
pub use encoding::{
    ascii_lower, bytes_eq_ignore_ascii_case, lemma_bom_byte_order_matches_charset,
    lemma_charset_own_labels, lemma_detect_own_bytes, lemma_from_byte_order_round_trip,
    lemma_predefined_byte_orders, lemma_predefined_charsets, lemma_matched_label_length,
    lemma_eq_ignore_ascii_case_is_lowercase_equality,
    lemma_str_eq_ignore_ascii_case_refl, lemma_text_encoding_own_labels, matches_some_alias,
    starts_with, str_eq_ignore_ascii_case, Charset, TextEncoding, UnicodeBom,
};
pub use error::{
    lemma_decode_error_from_parts, lemma_decode_error_parts, lemma_encode_error_from_parts,
    lemma_encode_error_parts, CharsetDecodeError, CharsetDecodeErrorKind,
    CharsetDecodeResult, CharsetEncodeError, CharsetEncodeErrorKind, CharsetEncodeResult,
};
pub use codec::{
    AsciiCodec, CharsetCodec, CharsetConvertError, CharsetConverter, CharsetDecoder,
    CharsetEncoder, Coder, CoderProgress, CoderStatus, DecodeStatus, Latin1Codec,
    MalformedAction, TextDecoder, TextEncoder, UnmappableAction, Utf16ByteCodec,
    Utf16ByteDecoder, Utf16ByteEncoder, Utf16U16Codec, Utf16U16Decoder, Utf16U16Encoder,
    Utf32ByteCodec, Utf32ByteDecoder, Utf32ByteEncoder, Utf32U32Codec, Utf32U32Decoder,
    Utf32U32Encoder, Utf8Codec, Utf8Decoder, Utf8Encoder, is_malformed_kind,
    lemma_ascii_encode_then_decode, lemma_ascii_encoding_range, lemma_converter_convert_counts,
    lemma_converter_decodes_then_encodes, lemma_converter_resumes, lemma_decode_run_counts,
    lemma_decoder_absorbs_malformed, lemma_decoder_convert_counts, lemma_decoder_resumes,
    lemma_encode_run_bounded, lemma_encode_run_counts, lemma_encoder_convert_counts,
    lemma_encoder_resumes, lemma_encoder_then_decoder, lemma_finish_keeps_pending,
    lemma_latin1_encode_then_decode, lemma_latin1_encoding_range, lemma_progress_from_parts,
    lemma_progress_parts, lemma_replacement_fits, lemma_utf16_bytes_encode_then_decode,
    lemma_utf16_units_encode_then_decode, lemma_utf32_bytes_encode_then_decode,
    lemma_utf32_units_encode_then_decode, lemma_utf8_decode_matches_standard,
    lemma_utf8_encode_then_decode, lemma_utf8_need_more_is_valid_prefix, spec_convert_loop,
    spec_decode_ascii, spec_decode_latin1, spec_decode_run, spec_decode_utf16_bytes,
    spec_decode_utf16_pair, spec_decode_utf16_units, spec_decode_utf32_bytes,
    spec_decode_utf32_units, spec_decode_utf8, spec_emit, spec_encode_ascii, spec_encode_latin1,
    spec_encode_run, spec_encode_step, spec_encode_utf16_bytes, spec_encode_utf16_units,
    spec_encode_utf32_bytes, spec_encode_utf32_units, spec_encode_utf8, spec_is_continuation,
    spec_malformed_skip, spec_resume, spec_scratch_len, spec_shift_progress,
    spec_utf16_bytes_of, spec_utf16_units_of, spec_utf8_byte_ok, spec_utf8_first_bad,
    spec_utf8_second_byte_ok, spec_write_char, spec_write_replacement, splice,
};
