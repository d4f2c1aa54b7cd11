mod ascii_codec;
mod charset_codec;
mod charset_convert_error;
mod charset_converter;
mod charset_decoder;
mod charset_encoder;
mod composition;
mod converter_resume;
mod coder;
mod coder_progress;
mod coder_status;
mod decode_status;
mod inner;
mod latin1_codec;
mod malformed_action;
mod resume;
mod round_trip;
mod text_decoder;
mod text_encoder;
mod unmappable_action;
mod utf16_byte_codec;
mod utf16_u16_codec;
mod utf32_byte_codec;
mod utf32_u32_codec;
mod utf8_codec;
mod utf8_decoder;
mod utf16_u16_decoder;
mod utf32_u32_decoder;
mod utf32_byte_decoder;
mod utf8_encoder;
mod utf16_u16_encoder;
mod utf16_byte_decoder;
mod utf16_byte_encoder;
mod utf32_u32_encoder;
mod utf32_byte_encoder;

pub use ascii_codec::{lemma_ascii_encode_then_decode, lemma_ascii_encoding_range, spec_decode_ascii, spec_encode_ascii, AsciiCodec};
pub use charset_codec::{splice, CharsetCodec};
pub use charset_convert_error::CharsetConvertError;
pub use charset_converter::{lemma_converter_convert_counts, lemma_finish_keeps_pending, spec_convert_loop, spec_resume, spec_emit, spec_write_char, CharsetConverter};
pub use charset_encoder::{
    lemma_encode_run_bounded, lemma_encode_run_counts, lemma_encoder_convert_counts,
    lemma_replacement_fits, spec_encode_run, spec_encode_step,
    spec_scratch_len, spec_write_replacement, CharsetEncoder,
};
pub use charset_decoder::{lemma_decode_run_counts, lemma_decoder_absorbs_malformed, lemma_decoder_convert_counts, is_malformed_kind, spec_decode_run, spec_malformed_skip, CharsetDecoder};
pub use coder::Coder;
pub use composition::lemma_converter_decodes_then_encodes;
pub use converter_resume::lemma_converter_resumes;
pub use coder_progress::{lemma_progress_from_parts, lemma_progress_parts, CoderProgress};
pub use coder_status::CoderStatus;
pub use decode_status::DecodeStatus;
pub use inner::utf16::{
    lemma_utf16_bytes_encode_then_decode, lemma_utf16_units_encode_then_decode,
    spec_decode_utf16_bytes, spec_decode_utf16_pair, spec_decode_utf16_units,
    spec_encode_utf16_bytes, spec_encode_utf16_units, spec_utf16_bytes_of, spec_utf16_units_of,
};
pub use inner::utf32::{
    lemma_utf32_bytes_encode_then_decode, lemma_utf32_units_encode_then_decode,
    spec_decode_utf32_bytes, spec_decode_utf32_units, spec_encode_utf32_bytes,
    spec_encode_utf32_units,
};
pub use inner::utf8::{
    lemma_utf8_decode_matches_standard, lemma_utf8_encode_then_decode,
    lemma_utf8_need_more_is_valid_prefix, spec_decode_utf8,
    spec_encode_utf8, spec_is_continuation, spec_utf8_byte_ok, spec_utf8_first_bad,
    spec_utf8_second_byte_ok,
};
pub use latin1_codec::{
    lemma_latin1_encode_then_decode, lemma_latin1_encoding_range, spec_decode_latin1, spec_encode_latin1, Latin1Codec,
};
pub use malformed_action::MalformedAction;
pub use resume::{lemma_decoder_resumes, lemma_encoder_resumes, spec_shift_progress};
pub use round_trip::lemma_encoder_then_decoder;
pub use text_decoder::TextDecoder;
pub use text_encoder::TextEncoder;
pub use unmappable_action::UnmappableAction;
pub use utf16_byte_codec::Utf16ByteCodec;
pub use utf16_u16_codec::Utf16U16Codec;
pub use utf32_byte_codec::Utf32ByteCodec;
pub use utf32_u32_codec::Utf32U32Codec;
pub use utf8_codec::Utf8Codec;
pub use utf8_decoder::Utf8Decoder;
pub use utf16_u16_decoder::Utf16U16Decoder;
pub use utf32_u32_decoder::Utf32U32Decoder;
pub use utf32_byte_decoder::Utf32ByteDecoder;
pub use utf8_encoder::Utf8Encoder;
pub use utf16_u16_encoder::Utf16U16Encoder;
pub use utf16_byte_decoder::Utf16ByteDecoder;
pub use utf16_byte_encoder::Utf16ByteEncoder;
pub use utf32_u32_encoder::Utf32U32Encoder;
pub use utf32_byte_encoder::Utf32ByteEncoder;
