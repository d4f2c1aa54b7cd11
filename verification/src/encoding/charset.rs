use vstd::prelude::*;

use super::label::{
    eq_ignore_ascii_case, lemma_eq_ignore_ascii_case_is_lowercase_equality,
    lemma_str_eq_ignore_ascii_case_refl, matches_any_alias, matches_some_alias,
    str_eq_ignore_ascii_case, str_equal,
};
use vstd::utf8::encode_utf8;
use crate::byte_order::ByteOrder;

verus! {

/// Identifies the charset associated with a codec or error.
///
/// A charset is represented by a stable normalized identifier, a display name, and
/// accepted aliases. Equality uses only the identifier, so display names and alias
/// lists can evolve without changing identity.
#[derive(Clone, Copy, Debug)]
pub struct Charset {
    /// Stable normalized identifier used for identity comparison.
    id: &'static str,
    /// Human-friendly display name for logs and errors.
    name: &'static str,
    /// Static alias list accepted in label matching.
    aliases: &'static [&'static str],
}

impl Charset {
    /// The stable identifier of this charset.
    pub closed spec fn spec_id(self) -> &'static str {
        self.id
    }

    /// The display name of this charset.
    pub closed spec fn spec_name(self) -> &'static str {
        self.name
    }

    /// The aliases of this charset.
    pub closed spec fn spec_aliases(self) -> Seq<&'static str> {
        self.aliases@
    }

    /// US-ASCII.
    pub closed spec fn spec_ascii() -> Charset {
        Charset { id: "ascii", name: "ASCII", aliases: &["us-ascii"] }
    }

    /// ISO-8859-1 (Latin-1).
    pub closed spec fn spec_iso_8859_1() -> Charset {
        Charset { id: "iso-8859-1", name: "ISO-8859-1", aliases: &["latin1", "latin-1"] }
    }

    /// UTF-8.
    pub closed spec fn spec_utf_8() -> Charset {
        Charset { id: "utf-8", name: "UTF-8", aliases: &["utf8"] }
    }

    /// UTF-16 code units.
    pub closed spec fn spec_utf_16() -> Charset {
        Charset { id: "utf-16", name: "UTF-16", aliases: &["utf16"] }
    }

    /// UTF-16 serialized little-endian.
    pub closed spec fn spec_utf_16le() -> Charset {
        Charset {
            id: "utf-16le",
            name: "UTF-16LE",
            aliases: &["utf16le", "utf16_le", "utf_16_le"],
        }
    }

    /// UTF-16 serialized big-endian.
    pub closed spec fn spec_utf_16be() -> Charset {
        Charset {
            id: "utf-16be",
            name: "UTF-16BE",
            aliases: &["utf16be", "utf16_be", "utf_16_be"],
        }
    }

    /// UTF-32 code units.
    pub closed spec fn spec_utf_32() -> Charset {
        Charset { id: "utf-32", name: "UTF-32", aliases: &["utf32"] }
    }

    /// UTF-32 serialized little-endian.
    pub closed spec fn spec_utf_32le() -> Charset {
        Charset {
            id: "utf-32le",
            name: "UTF-32LE",
            aliases: &["utf32le", "utf32_le", "utf_32_le"],
        }
    }

    /// UTF-32 serialized big-endian.
    pub closed spec fn spec_utf_32be() -> Charset {
        Charset {
            id: "utf-32be",
            name: "UTF-32BE",
            aliases: &["utf32be", "utf32_be", "utf_32_be"],
        }
    }

    /// The UTF-16 charset with the given fixed byte order.
    pub open spec fn spec_from_utf16_byte_order(byte_order: ByteOrder) -> Charset {
        match byte_order {
            ByteOrder::LittleEndian => Self::spec_utf_16le(),
            ByteOrder::BigEndian => Self::spec_utf_16be(),
        }
    }

    /// The UTF-32 charset with the given fixed byte order.
    pub open spec fn spec_from_utf32_byte_order(byte_order: ByteOrder) -> Charset {
        match byte_order {
            ByteOrder::LittleEndian => Self::spec_utf_32le(),
            ByteOrder::BigEndian => Self::spec_utf_32be(),
        }
    }

    /// The fixed byte order of this charset: little-endian for UTF-16LE and UTF-32LE,
    /// big-endian for UTF-16BE and UTF-32BE, none for any other identifier.
    pub open spec fn spec_byte_order(self) -> Option<ByteOrder> {
        if self.spec_id()@ == Self::spec_utf_16le().spec_id()@ || self.spec_id()@
            == Self::spec_utf_32le().spec_id()@ {
            Some(ByteOrder::LittleEndian)
        } else if self.spec_id()@ == Self::spec_utf_16be().spec_id()@ || self.spec_id()@
            == Self::spec_utf_32be().spec_id()@ {
            Some(ByteOrder::BigEndian)
        } else {
            None
        }
    }

    /// US-ASCII text.
    #[verifier::when_used_as_spec(spec_ascii)]
    pub fn ascii() -> (r: Charset)
        ensures
            r == Self::spec_ascii(),
    {
        Charset { id: "ascii", name: "ASCII", aliases: &["us-ascii"] }
    }

    /// ISO-8859-1 (Latin-1) text.
    #[verifier::when_used_as_spec(spec_iso_8859_1)]
    pub fn iso_8859_1() -> (r: Charset)
        ensures
            r == Self::spec_iso_8859_1(),
    {
        Charset { id: "iso-8859-1", name: "ISO-8859-1", aliases: &["latin1", "latin-1"] }
    }

    /// UTF-8 text.
    #[verifier::when_used_as_spec(spec_utf_8)]
    pub fn utf_8() -> (r: Charset)
        ensures
            r == Self::spec_utf_8(),
    {
        Charset { id: "utf-8", name: "UTF-8", aliases: &["utf8"] }
    }

    /// UTF-16 text.
    #[verifier::when_used_as_spec(spec_utf_16)]
    pub fn utf_16() -> (r: Charset)
        ensures
            r == Self::spec_utf_16(),
    {
        Charset { id: "utf-16", name: "UTF-16", aliases: &["utf16"] }
    }

    /// UTF-16 text serialized in little-endian byte order.
    #[verifier::when_used_as_spec(spec_utf_16le)]
    pub fn utf_16le() -> (r: Charset)
        ensures
            r == Self::spec_utf_16le(),
    {
        Charset {
            id: "utf-16le",
            name: "UTF-16LE",
            aliases: &["utf16le", "utf16_le", "utf_16_le"],
        }
    }

    /// UTF-16 text serialized in big-endian byte order.
    #[verifier::when_used_as_spec(spec_utf_16be)]
    pub fn utf_16be() -> (r: Charset)
        ensures
            r == Self::spec_utf_16be(),
    {
        Charset {
            id: "utf-16be",
            name: "UTF-16BE",
            aliases: &["utf16be", "utf16_be", "utf_16_be"],
        }
    }

    /// UTF-32 text.
    #[verifier::when_used_as_spec(spec_utf_32)]
    pub fn utf_32() -> (r: Charset)
        ensures
            r == Self::spec_utf_32(),
    {
        Charset { id: "utf-32", name: "UTF-32", aliases: &["utf32"] }
    }

    /// UTF-32 text serialized in little-endian byte order.
    #[verifier::when_used_as_spec(spec_utf_32le)]
    pub fn utf_32le() -> (r: Charset)
        ensures
            r == Self::spec_utf_32le(),
    {
        Charset {
            id: "utf-32le",
            name: "UTF-32LE",
            aliases: &["utf32le", "utf32_le", "utf_32_le"],
        }
    }

    /// UTF-32 text serialized in big-endian byte order.
    #[verifier::when_used_as_spec(spec_utf_32be)]
    pub fn utf_32be() -> (r: Charset)
        ensures
            r == Self::spec_utf_32be(),
    {
        Charset {
            id: "utf-32be",
            name: "UTF-32BE",
            aliases: &["utf32be", "utf32_be", "utf_32_be"],
        }
    }

    /// Creates a charset descriptor from an identifier, a display name and aliases.
    pub fn new(id: &'static str, name: &'static str, aliases: &'static [&'static str]) -> (r:
        Self)
        ensures
            r.spec_id() == id,
            r.spec_name() == name,
            r.spec_aliases() == aliases@,
    {
        Self { id, name, aliases }
    }

    /// Returns the stable normalized identifier used for equality.
    pub fn id(self) -> (r: &'static str)
        ensures
            r == self.spec_id(),
    {
        self.id
    }

    /// Returns the display name.
    pub fn name(self) -> (r: &'static str)
        ensures
            r == self.spec_name(),
    {
        self.name
    }

    /// Returns the accepted aliases.
    pub fn aliases(self) -> (r: &'static [&'static str])
        ensures
            r@ == self.spec_aliases(),
    {
        self.aliases
    }

    /// Returns [`Charset::utf_16le`] for little-endian and [`Charset::utf_16be`] for
    /// big-endian byte order.
    #[verifier::when_used_as_spec(spec_from_utf16_byte_order)]
    pub fn from_utf16_byte_order(byte_order: ByteOrder) -> (r: Self)
        ensures
            r == Self::spec_from_utf16_byte_order(byte_order),
    {
        match byte_order {
            ByteOrder::LittleEndian => Self::utf_16le(),
            ByteOrder::BigEndian => Self::utf_16be(),
        }
    }

    /// Returns [`Charset::utf_32le`] for little-endian and [`Charset::utf_32be`] for
    /// big-endian byte order.
    #[verifier::when_used_as_spec(spec_from_utf32_byte_order)]
    pub fn from_utf32_byte_order(byte_order: ByteOrder) -> (r: Self)
        ensures
            r == Self::spec_from_utf32_byte_order(byte_order),
    {
        match byte_order {
            ByteOrder::LittleEndian => Self::utf_32le(),
            ByteOrder::BigEndian => Self::utf_32be(),
        }
    }

    /// Returns the fixed byte order of this charset: little-endian for the identifiers of
    /// UTF-16LE and UTF-32LE, big-endian for those of UTF-16BE and UTF-32BE, `None` for
    /// any other identifier.
    pub fn byte_order(self) -> (r: Option<ByteOrder>)
        ensures
            r == self.spec_byte_order(),
    {
        if self.eq(&Self::utf_16le()) || self.eq(&Self::utf_32le()) {
            Some(ByteOrder::LittleEndian)
        } else if self.eq(&Self::utf_16be()) || self.eq(&Self::utf_32be()) {
            Some(ByteOrder::BigEndian)
        } else {
            None
        }
    }

    /// True when `label` equals the identifier, the display name, or one of the aliases,
    /// up to ASCII case.
    pub open spec fn spec_matches_label(self, label: Seq<char>) -> bool {
        ||| str_eq_ignore_ascii_case(label, self.spec_id()@)
        ||| str_eq_ignore_ascii_case(label, self.spec_name()@)
        ||| matches_some_alias(label, self.spec_aliases())
    }

    /// Tests whether `label` names this charset: it equals the identifier, the display
    /// name, or one of the aliases, up to ASCII case.
    pub fn matches_label(self, label: &str) -> (r: bool)
        ensures
            r == self.spec_matches_label(label@),
    {
        if eq_ignore_ascii_case(label, self.id) || eq_ignore_ascii_case(label, self.name) {
            return true;
        }
        matches_any_alias(label, self.aliases)
    }
}

impl PartialEq for Charset {
    fn eq(&self, other: &Self) -> (r: bool)
        ensures
            r == (self.spec_id()@ == other.spec_id()@),
    {
        str_equal(self.id, other.id)
    }
}

impl vstd::std_specs::cmp::PartialEqSpecImpl for Charset {
    open spec fn obeys_eq_spec() -> bool {
        true
    }

    open spec fn eq_spec(&self, other: &Self) -> bool {
        self.spec_id()@ == other.spec_id()@
    }
}

impl Eq for Charset {

}

/// The identifier, the display name and each alias of a charset are labels of it.
pub proof fn lemma_charset_own_labels(value: Charset)
    ensures
        value.spec_matches_label(value.spec_id()@),
        value.spec_matches_label(value.spec_name()@),
        forall|i: int|
            0 <= i < value.spec_aliases().len() ==> value.spec_matches_label(
                #[trigger] value.spec_aliases()[i]@,
            ),
{
    lemma_str_eq_ignore_ascii_case_refl(value.spec_id()@);
    lemma_str_eq_ignore_ascii_case_refl(value.spec_name()@);
    assert forall|i: int| 0 <= i < value.spec_aliases().len() implies value.spec_matches_label(
        #[trigger] value.spec_aliases()[i]@,
    ) by {
        lemma_str_eq_ignore_ascii_case_refl(value.spec_aliases()[i]@);
    }
}

/// The identifiers, names and aliases of the predefined charsets.
pub proof fn lemma_predefined_charsets()
    ensures
        Charset::spec_ascii().spec_id() == "ascii",
        Charset::spec_ascii().spec_name() == "ASCII",
        Charset::spec_ascii().spec_aliases() == seq!["us-ascii"],
        Charset::spec_iso_8859_1().spec_id() == "iso-8859-1",
        Charset::spec_iso_8859_1().spec_name() == "ISO-8859-1",
        Charset::spec_iso_8859_1().spec_aliases() == seq!["latin1", "latin-1"],
        Charset::spec_utf_8().spec_id() == "utf-8",
        Charset::spec_utf_8().spec_name() == "UTF-8",
        Charset::spec_utf_8().spec_aliases() == seq!["utf8"],
        Charset::spec_utf_16().spec_id() == "utf-16",
        Charset::spec_utf_16().spec_name() == "UTF-16",
        Charset::spec_utf_16().spec_aliases() == seq!["utf16"],
        Charset::spec_utf_16le().spec_id() == "utf-16le",
        Charset::spec_utf_16le().spec_name() == "UTF-16LE",
        Charset::spec_utf_16le().spec_aliases() == seq!["utf16le", "utf16_le", "utf_16_le"],
        Charset::spec_utf_16be().spec_id() == "utf-16be",
        Charset::spec_utf_16be().spec_name() == "UTF-16BE",
        Charset::spec_utf_16be().spec_aliases() == seq!["utf16be", "utf16_be", "utf_16_be"],
        Charset::spec_utf_32().spec_id() == "utf-32",
        Charset::spec_utf_32().spec_name() == "UTF-32",
        Charset::spec_utf_32().spec_aliases() == seq!["utf32"],
        Charset::spec_utf_32le().spec_id() == "utf-32le",
        Charset::spec_utf_32le().spec_name() == "UTF-32LE",
        Charset::spec_utf_32le().spec_aliases() == seq!["utf32le", "utf32_le", "utf_32_le"],
        Charset::spec_utf_32be().spec_id() == "utf-32be",
        Charset::spec_utf_32be().spec_name() == "UTF-32BE",
        Charset::spec_utf_32be().spec_aliases() == seq!["utf32be", "utf32_be", "utf_32_be"],
{
}

/// The byte-order charsets report their byte order, and the other predefined charsets
/// report none.
pub proof fn lemma_predefined_byte_orders()
    ensures
        Charset::spec_utf_16le().spec_byte_order() == Some(ByteOrder::LittleEndian),
        Charset::spec_utf_32le().spec_byte_order() == Some(ByteOrder::LittleEndian),
        Charset::spec_utf_16be().spec_byte_order() == Some(ByteOrder::BigEndian),
        Charset::spec_utf_32be().spec_byte_order() == Some(ByteOrder::BigEndian),
        Charset::spec_ascii().spec_byte_order() == None::<ByteOrder>,
        Charset::spec_iso_8859_1().spec_byte_order() == None::<ByteOrder>,
        Charset::spec_utf_8().spec_byte_order() == None::<ByteOrder>,
        Charset::spec_utf_16().spec_byte_order() == None::<ByteOrder>,
        Charset::spec_utf_32().spec_byte_order() == None::<ByteOrder>,
{
    reveal_strlit("ascii");
    reveal_strlit("iso-8859-1");
    reveal_strlit("utf-8");
    reveal_strlit("utf-16");
    reveal_strlit("utf-16le");
    reveal_strlit("utf-16be");
    reveal_strlit("utf-32");
    reveal_strlit("utf-32le");
    reveal_strlit("utf-32be");
    assert("utf-16le"@.len() == 8 && "utf-16be"@.len() == 8 && "utf-32le"@.len() == 8
        && "utf-32be"@.len() == 8);
    assert("ascii"@.len() == 5 && "iso-8859-1"@.len() == 10 && "utf-8"@.len() == 5
        && "utf-16"@.len() == 6 && "utf-32"@.len() == 6);
    assert("utf-16be"@ != "utf-16le"@) by {
        assert("utf-16be"@[6] != "utf-16le"@[6]);
    }
    assert("utf-16be"@ != "utf-32le"@) by {
        assert("utf-16be"@[4] != "utf-32le"@[4]);
    }
    assert("utf-32be"@ != "utf-16le"@) by {
        assert("utf-32be"@[4] != "utf-16le"@[4]);
    }
    assert("utf-32be"@ != "utf-32le"@) by {
        assert("utf-32be"@[6] != "utf-32le"@[6]);
    }
}

/// The UTF-16 and UTF-32 charsets chosen for a byte order report that byte order.
pub proof fn lemma_from_byte_order_round_trip(byte_order: ByteOrder)
    ensures
        Charset::spec_from_utf16_byte_order(byte_order).spec_byte_order() == Some(byte_order),
        Charset::spec_from_utf32_byte_order(byte_order).spec_byte_order() == Some(byte_order),
{
    lemma_predefined_byte_orders();
}

/// A label matches a charset only if its UTF-8 form is as long as that of the
/// identifier, the name, or one of the aliases: a proper prefix or extension of them
/// does not match.
pub proof fn lemma_matched_label_length(charset: Charset, label: Seq<char>)
    ensures
        charset.spec_matches_label(label) ==> {
            ||| encode_utf8(label).len() == encode_utf8(charset.spec_id()@).len()
            ||| encode_utf8(label).len() == encode_utf8(charset.spec_name()@).len()
            ||| exists|i: int|
                0 <= i < charset.spec_aliases().len() && encode_utf8(label).len()
                    == encode_utf8(#[trigger] charset.spec_aliases()[i]@).len()
        },
{
    lemma_eq_ignore_ascii_case_is_lowercase_equality(label, charset.spec_id()@);
    lemma_eq_ignore_ascii_case_is_lowercase_equality(label, charset.spec_name()@);
    if matches_some_alias(label, charset.spec_aliases()) {
        let i = choose|i: int|
            0 <= i < charset.spec_aliases().len() && #[trigger] str_eq_ignore_ascii_case(
                label,
                charset.spec_aliases()[i]@,
            );
        lemma_eq_ignore_ascii_case_is_lowercase_equality(label, charset.spec_aliases()[i]@);
    }
}

} // verus!
