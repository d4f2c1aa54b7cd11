use vstd::prelude::*;

use super::charset::Charset;
use crate::byte_order::ByteOrder;

verus! {

/// True when `bytes` begins with `prefix`.
pub open spec fn starts_with(bytes: Seq<u8>, prefix: Seq<u8>) -> bool {
    bytes.len() >= prefix.len() && bytes.subrange(0, prefix.len() as int) == prefix
}

/// Unicode byte order marks supported by this crate.
///
/// Detection looks only at the bytes supplied to the call. Streaming callers should
/// buffer up to four bytes, or read until the end, before deciding that no longer BOM can
/// be present.
#[derive(Clone, Copy, Debug, Eq, Hash, PartialEq, Structural)]
pub enum UnicodeBom {
    /// UTF-8 byte order mark.
    Utf8,
    /// UTF-16 big-endian byte order mark.
    Utf16BigEndian,
    /// UTF-16 little-endian byte order mark.
    Utf16LittleEndian,
    /// UTF-32 big-endian byte order mark.
    Utf32BigEndian,
    /// UTF-32 little-endian byte order mark.
    Utf32LittleEndian,
}

impl UnicodeBom {
    /// The bytes of this byte order mark.
    pub open spec fn spec_bytes(self) -> Seq<u8> {
        match self {
            UnicodeBom::Utf8 => seq![0xefu8, 0xbbu8, 0xbfu8],
            UnicodeBom::Utf16BigEndian => seq![0xfeu8, 0xffu8],
            UnicodeBom::Utf16LittleEndian => seq![0xffu8, 0xfeu8],
            UnicodeBom::Utf32BigEndian => seq![0x00u8, 0x00u8, 0xfeu8, 0xffu8],
            UnicodeBom::Utf32LittleEndian => seq![0xffu8, 0xfeu8, 0x00u8, 0x00u8],
        }
    }

    /// The byte order mark that `bytes` begins with. UTF-32 marks are tried before
    /// UTF-8 and UTF-16 marks, so `FF FE 00 00` is UTF-32 little-endian.
    pub open spec fn spec_detect(bytes: Seq<u8>) -> Option<UnicodeBom> {
        if starts_with(bytes, UnicodeBom::Utf32BigEndian.spec_bytes()) {
            Some(UnicodeBom::Utf32BigEndian)
        } else if starts_with(bytes, UnicodeBom::Utf32LittleEndian.spec_bytes()) {
            Some(UnicodeBom::Utf32LittleEndian)
        } else if starts_with(bytes, UnicodeBom::Utf8.spec_bytes()) {
            Some(UnicodeBom::Utf8)
        } else if starts_with(bytes, UnicodeBom::Utf16BigEndian.spec_bytes()) {
            Some(UnicodeBom::Utf16BigEndian)
        } else if starts_with(bytes, UnicodeBom::Utf16LittleEndian.spec_bytes()) {
            Some(UnicodeBom::Utf16LittleEndian)
        } else {
            None
        }
    }

    /// Detects a Unicode byte order mark at the beginning of `bytes`.
    pub fn detect(bytes: &[u8]) -> (r: Option<Self>)
        ensures
            r == Self::spec_detect(bytes@),
    {
        let n: usize = bytes.len();
        let ghost s = bytes@;
        assert(starts_with(s, UnicodeBom::Utf32BigEndian.spec_bytes()) <==> (n >= 4 && s[0] == 0
            && s[1] == 0 && s[2] == 0xfe && s[3] == 0xff)) by {
            if n >= 4 && s[0] == 0 && s[1] == 0 && s[2] == 0xfe && s[3] == 0xff {
                assert(s.subrange(0, 4) =~= UnicodeBom::Utf32BigEndian.spec_bytes());
            }
        }
        assert(starts_with(s, UnicodeBom::Utf32LittleEndian.spec_bytes()) <==> (n >= 4 && s[0]
            == 0xff && s[1] == 0xfe && s[2] == 0 && s[3] == 0)) by {
            if n >= 4 && s[0] == 0xff && s[1] == 0xfe && s[2] == 0 && s[3] == 0 {
                assert(s.subrange(0, 4) =~= UnicodeBom::Utf32LittleEndian.spec_bytes());
            }
        }
        assert(starts_with(s, UnicodeBom::Utf8.spec_bytes()) <==> (n >= 3 && s[0] == 0xef
            && s[1] == 0xbb && s[2] == 0xbf)) by {
            if n >= 3 && s[0] == 0xef && s[1] == 0xbb && s[2] == 0xbf {
                assert(s.subrange(0, 3) =~= UnicodeBom::Utf8.spec_bytes());
            }
        }
        assert(starts_with(s, UnicodeBom::Utf16BigEndian.spec_bytes()) <==> (n >= 2 && s[0]
            == 0xfe && s[1] == 0xff)) by {
            if n >= 2 && s[0] == 0xfe && s[1] == 0xff {
                assert(s.subrange(0, 2) =~= UnicodeBom::Utf16BigEndian.spec_bytes());
            }
        }
        assert(starts_with(s, UnicodeBom::Utf16LittleEndian.spec_bytes()) <==> (n >= 2 && s[0]
            == 0xff && s[1] == 0xfe)) by {
            if n >= 2 && s[0] == 0xff && s[1] == 0xfe {
                assert(s.subrange(0, 2) =~= UnicodeBom::Utf16LittleEndian.spec_bytes());
            }
        }
        if n >= 4 && bytes[0] == 0x00 && bytes[1] == 0x00 && bytes[2] == 0xfe && bytes[3] == 0xff {
            Some(Self::Utf32BigEndian)
        } else if n >= 4 && bytes[0] == 0xff && bytes[1] == 0xfe && bytes[2] == 0x00 && bytes[3]
            == 0x00 {
            Some(Self::Utf32LittleEndian)
        } else if n >= 3 && bytes[0] == 0xef && bytes[1] == 0xbb && bytes[2] == 0xbf {
            Some(Self::Utf8)
        } else if n >= 2 && bytes[0] == 0xfe && bytes[1] == 0xff {
            Some(Self::Utf16BigEndian)
        } else if n >= 2 && bytes[0] == 0xff && bytes[1] == 0xfe {
            Some(Self::Utf16LittleEndian)
        } else {
            None
        }
    }

    /// Returns the bytes that represent this byte order mark.
    pub fn bytes(self) -> (r: &'static [u8])
        ensures
            r@ == self.spec_bytes(),
    {
        let r: &'static [u8] = match self {
            Self::Utf8 => &[0xef, 0xbb, 0xbf],
            Self::Utf16BigEndian => &[0xfe, 0xff],
            Self::Utf16LittleEndian => &[0xff, 0xfe],
            Self::Utf32BigEndian => &[0x00, 0x00, 0xfe, 0xff],
            Self::Utf32LittleEndian => &[0xff, 0xfe, 0x00, 0x00],
        };
        assert(r@ =~= self.spec_bytes());
        r
    }

    /// Returns the number of bytes in this byte order mark.
    pub fn byte_len(self) -> (r: usize)
        ensures
            r == self.spec_bytes().len(),
    {
        match self {
            Self::Utf8 => 3,
            Self::Utf16BigEndian | Self::Utf16LittleEndian => 2,
            Self::Utf32BigEndian | Self::Utf32LittleEndian => 4,
        }
    }

    /// The charset indicated by this byte order mark.
    pub open spec fn spec_charset(self) -> Charset {
        match self {
            UnicodeBom::Utf8 => Charset::spec_utf_8(),
            UnicodeBom::Utf16BigEndian => Charset::spec_utf_16be(),
            UnicodeBom::Utf16LittleEndian => Charset::spec_utf_16le(),
            UnicodeBom::Utf32BigEndian => Charset::spec_utf_32be(),
            UnicodeBom::Utf32LittleEndian => Charset::spec_utf_32le(),
        }
    }

    /// Returns the charset indicated by this byte order mark, with its fixed byte order
    /// for UTF-16 and UTF-32.
    pub fn charset(self) -> (r: Charset)
        ensures
            r == self.spec_charset(),
    {
        match self {
            Self::Utf8 => Charset::utf_8(),
            Self::Utf16BigEndian => Charset::utf_16be(),
            Self::Utf16LittleEndian => Charset::utf_16le(),
            Self::Utf32BigEndian => Charset::utf_32be(),
            Self::Utf32LittleEndian => Charset::utf_32le(),
        }
    }

    /// The byte order indicated by this mark: none for UTF-8.
    pub open spec fn spec_byte_order(self) -> Option<ByteOrder> {
        match self {
            UnicodeBom::Utf8 => None,
            UnicodeBom::Utf16BigEndian | UnicodeBom::Utf32BigEndian => Some(ByteOrder::BigEndian),
            UnicodeBom::Utf16LittleEndian | UnicodeBom::Utf32LittleEndian => Some(
                ByteOrder::LittleEndian,
            ),
        }
    }

    /// Returns the byte order indicated by this mark: `None` for UTF-8.
    pub fn byte_order(self) -> (r: Option<ByteOrder>)
        ensures
            r == self.spec_byte_order(),
    {
        match self {
            Self::Utf8 => None,
            Self::Utf16BigEndian | Self::Utf32BigEndian => Some(ByteOrder::BigEndian),
            Self::Utf16LittleEndian | Self::Utf32LittleEndian => Some(ByteOrder::LittleEndian),
        }
    }
}

/// A buffer that starts with the bytes of a byte order mark is detected as that mark,
/// except that a UTF-16 little-endian mark followed by two zero bytes is detected as the
/// UTF-32 little-endian mark.
pub proof fn lemma_detect_own_bytes(bom: UnicodeBom, rest: Seq<u8>)
    requires
        !(bom == UnicodeBom::Utf16LittleEndian && rest.len() >= 2 && rest[0] == 0 && rest[1]
            == 0),
    ensures
        UnicodeBom::spec_detect(bom.spec_bytes() + rest) == Some(bom),
{
    let s = bom.spec_bytes() + rest;
    assert(s.subrange(0, bom.spec_bytes().len() as int) =~= bom.spec_bytes());
    let b32 = UnicodeBom::Utf32BigEndian.spec_bytes();
    let l32 = UnicodeBom::Utf32LittleEndian.spec_bytes();
    let u8b = UnicodeBom::Utf8.spec_bytes();
    let b16 = UnicodeBom::Utf16BigEndian.spec_bytes();
    if bom != UnicodeBom::Utf32BigEndian && starts_with(s, b32) {
        assert(s.subrange(0, 4)[0] == s[0]);
        assert(s.subrange(0, 4)[2] == s[2]);
    }
    if bom != UnicodeBom::Utf32BigEndian && bom != UnicodeBom::Utf32LittleEndian && starts_with(
        s,
        l32,
    ) {
        assert(s.subrange(0, 4)[0] == s[0]);
        assert(s.subrange(0, 4)[1] == s[1]);
        assert(s.subrange(0, 4)[2] == s[2]);
        assert(s.subrange(0, 4)[3] == s[3]);
        if bom == UnicodeBom::Utf16LittleEndian {
            assert(rest[0] == s[2]);
            assert(rest[1] == s[3]);
        }
    }
    if bom != UnicodeBom::Utf8 && starts_with(s, u8b) {
        assert(s.subrange(0, 3)[0] == s[0]);
    }
    if bom == UnicodeBom::Utf16LittleEndian && starts_with(s, b16) {
        assert(s.subrange(0, 2)[0] == s[0]);
    }
}

/// The byte order a mark indicates is the byte order of the charset it indicates.
pub proof fn lemma_bom_byte_order_matches_charset(bom: UnicodeBom)
    ensures
        bom.spec_byte_order() == bom.spec_charset().spec_byte_order(),
{
    super::charset::lemma_predefined_byte_orders();
}

} // verus!
