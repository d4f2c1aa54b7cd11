pub mod utf16;
pub mod utf32;
pub mod utf8;
