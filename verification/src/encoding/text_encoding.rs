use vstd::prelude::*;

use super::label::{
    eq_ignore_ascii_case, lemma_str_eq_ignore_ascii_case_refl, matches_any_alias, matches_some_alias,
    str_eq_ignore_ascii_case, str_equal,
};

verus! {

/// Identifies a text encoding by a stable normalized identifier, a display name and
/// accepted aliases. Equality uses only the identifier.
#[derive(Clone, Copy, Debug)]
pub struct TextEncoding {
    id: &'static str,
    name: &'static str,
    aliases: &'static [&'static str],
}

impl TextEncoding {
    /// The stable identifier of this encoding.
    pub closed spec fn spec_id(self) -> &'static str {
        self.id
    }

    /// The display name of this encoding.
    pub closed spec fn spec_name(self) -> &'static str {
        self.name
    }

    /// The aliases of this encoding.
    pub closed spec fn spec_aliases(self) -> Seq<&'static str> {
        self.aliases@
    }

    /// US-ASCII text.
    pub fn ascii() -> (r: Self)
        ensures
            r.spec_id()@ == "ascii"@,
    {
        Self { id: "ascii", name: "ASCII", aliases: &["us-ascii"] }
    }

    /// UTF-8 text.
    pub fn utf_8() -> (r: Self)
        ensures
            r.spec_id()@ == "utf-8"@,
    {
        Self { id: "utf-8", name: "UTF-8", aliases: &["utf8"] }
    }

    /// UTF-16 text.
    pub fn utf_16() -> (r: Self)
        ensures
            r.spec_id()@ == "utf-16"@,
    {
        Self { id: "utf-16", name: "UTF-16", aliases: &["utf16"] }
    }

    /// UTF-32 text.
    pub fn utf_32() -> (r: Self)
        ensures
            r.spec_id()@ == "utf-32"@,
    {
        Self { id: "utf-32", name: "UTF-32", aliases: &["utf32"] }
    }

    /// Creates a text encoding descriptor.
    pub fn new(id: &'static str, name: &'static str, aliases: &'static [&'static str]) -> (r:
        Self)
        ensures
            r.spec_id() == id,
            r.spec_name() == name,
            r.spec_aliases() == aliases@,
    {
        Self { id, name, aliases }
    }

    /// Returns the stable normalized identifier used for equality.
    pub fn id(self) -> (r: &'static str)
        ensures
            r == self.spec_id(),
    {
        self.id
    }

    /// Returns the display name.
    pub fn name(self) -> (r: &'static str)
        ensures
            r == self.spec_name(),
    {
        self.name
    }

    /// Returns the accepted aliases.
    pub fn aliases(self) -> (r: &'static [&'static str])
        ensures
            r@ == self.spec_aliases(),
    {
        self.aliases
    }

    /// True when `label` equals the identifier, the display name, or one of the aliases,
    /// up to ASCII case.
    pub open spec fn spec_matches_label(self, label: Seq<char>) -> bool {
        ||| str_eq_ignore_ascii_case(label, self.spec_id()@)
        ||| str_eq_ignore_ascii_case(label, self.spec_name()@)
        ||| matches_some_alias(label, self.spec_aliases())
    }

    /// Tests whether `label` names this encoding: it equals the identifier, the display
    /// name, or one of the aliases, up to ASCII case.
    pub fn matches_label(self, label: &str) -> (r: bool)
        ensures
            r == self.spec_matches_label(label@),
    {
        if eq_ignore_ascii_case(label, self.id) || eq_ignore_ascii_case(label, self.name) {
            return true;
        }
        matches_any_alias(label, self.aliases)
    }
}

impl PartialEq for TextEncoding {
    /// Compares text encodings by stable identifier.
    fn eq(&self, other: &Self) -> (r: bool) {
        str_equal(self.id, other.id)
    }
}

impl vstd::std_specs::cmp::PartialEqSpecImpl for TextEncoding {
    open spec fn obeys_eq_spec() -> bool {
        true
    }

    open spec fn eq_spec(&self, other: &Self) -> bool {
        self.spec_id()@ == other.spec_id()@
    }
}

impl Eq for TextEncoding {

}

/// The identifier, the display name and each alias of a text encoding are labels of it.
pub proof fn lemma_text_encoding_own_labels(value: TextEncoding)
    ensures
        value.spec_matches_label(value.spec_id()@),
        value.spec_matches_label(value.spec_name()@),
        forall|i: int|
            0 <= i < value.spec_aliases().len() ==> value.spec_matches_label(
                #[trigger] value.spec_aliases()[i]@,
            ),
{
    lemma_str_eq_ignore_ascii_case_refl(value.spec_id()@);
    lemma_str_eq_ignore_ascii_case_refl(value.spec_name()@);
    assert forall|i: int| 0 <= i < value.spec_aliases().len() implies value.spec_matches_label(
        #[trigger] value.spec_aliases()[i]@,
    ) by {
        lemma_str_eq_ignore_ascii_case_refl(value.spec_aliases()[i]@);
    }
}

} // verus!
