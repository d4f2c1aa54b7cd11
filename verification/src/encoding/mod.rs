mod charset;
mod label;
mod text_encoding;
mod unicode_bom;

pub use charset::{
    lemma_charset_own_labels, lemma_from_byte_order_round_trip, lemma_matched_label_length, lemma_predefined_byte_orders,
    lemma_predefined_charsets, Charset,
};
pub use label::{
    ascii_lower, bytes_eq_ignore_ascii_case, lemma_eq_ignore_ascii_case_is_lowercase_equality,
    lemma_str_eq_ignore_ascii_case_refl, matches_some_alias,
    str_eq_ignore_ascii_case,
};
pub use text_encoding::{lemma_text_encoding_own_labels, TextEncoding};
pub use unicode_bom::{
    lemma_bom_byte_order_matches_charset, lemma_detect_own_bytes, starts_with, UnicodeBom,
};
