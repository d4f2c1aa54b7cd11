use vstd::prelude::*;
use vstd::utf8::{decode_utf8, encode_utf8, encode_utf8_decode_utf8};

verus! {

/// ASCII lowercase of a byte; bytes outside `A..=Z` are unchanged.
pub open spec fn ascii_lower(byte: u8) -> u8 {
    if 0x41 <= byte <= 0x5a {
        (byte + 0x20) as u8
    } else {
        byte
    }
}

/// True when two byte strings are equal up to ASCII case: same length and, at each
/// position, the same byte after ASCII lowercasing.
pub open spec fn bytes_eq_ignore_ascii_case(a: Seq<u8>, b: Seq<u8>) -> bool {
    &&& a.len() == b.len()
    &&& forall|i: int| 0 <= i < a.len() ==> #[trigger] ascii_lower(a[i]) == ascii_lower(b[i])
}

/// True when the UTF-8 encodings of two strings are equal up to ASCII case.
pub open spec fn str_eq_ignore_ascii_case(a: Seq<char>, b: Seq<char>) -> bool {
    bytes_eq_ignore_ascii_case(encode_utf8(a), encode_utf8(b))
}

fn lower_byte(byte: u8) -> (r: u8)
    ensures
        r == ascii_lower(byte),
{
    if byte >= 0x41 && byte <= 0x5a {
        byte + 0x20
    } else {
        byte
    }
}

/// Compares two strings for ASCII case-insensitive equality.
pub fn eq_ignore_ascii_case(a: &str, b: &str) -> (r: bool)
    ensures
        r == str_eq_ignore_ascii_case(a@, b@),
{
    let x: &[u8] = a.as_bytes();
    let y: &[u8] = b.as_bytes();
    if x.len() != y.len() {
        return false;
    }
    let mut i: usize = 0;
    while i < x.len()
        invariant
            x@ == encode_utf8(a@),
            y@ == encode_utf8(b@),
            x@.len() == y@.len(),
            i <= x@.len(),
            forall|j: int| 0 <= j < i ==> #[trigger] ascii_lower(x@[j]) == ascii_lower(y@[j]),
        decreases x@.len() - i,
    {
        if lower_byte(x[i]) != lower_byte(y[i]) {
            return false;
        }
        i = i + 1;
    }
    true
}

/// Compares two strings for exact equality.
pub fn str_equal(a: &str, b: &str) -> (r: bool)
    ensures
        r == (a@ == b@),
{
    let x: &[u8] = a.as_bytes();
    let y: &[u8] = b.as_bytes();
    proof {
        encode_utf8_decode_utf8(a@);
        encode_utf8_decode_utf8(b@);
    }
    if x.len() != y.len() {
        return false;
    }
    let mut i: usize = 0;
    while i < x.len()
        invariant
            x@ == encode_utf8(a@),
            y@ == encode_utf8(b@),
            x@.len() == y@.len(),
            i <= x@.len(),
            forall|j: int| 0 <= j < i ==> x@[j] == y@[j],
        decreases x@.len() - i,
    {
        if x[i] != y[i] {
            return false;
        }
        i = i + 1;
    }
    assert(x@ =~= y@);
    true
}

/// True when `label` equals one of `aliases` up to ASCII case.
pub open spec fn matches_some_alias(label: Seq<char>, aliases: Seq<&str>) -> bool {
    exists|i: int| 0 <= i < aliases.len() && #[trigger] str_eq_ignore_ascii_case(label, aliases[i]@)
}

/// Tests whether `label` equals one of the entries of `aliases` up to ASCII case.
pub fn matches_any_alias(label: &str, aliases: &[&str]) -> (r: bool)
    ensures
        r == matches_some_alias(label@, aliases@),
{
    let mut i: usize = 0;
    while i < aliases.len()
        invariant
            i <= aliases@.len(),
            forall|j: int|
                0 <= j < i ==> !#[trigger] str_eq_ignore_ascii_case(label@, aliases@[j]@),
        decreases aliases@.len() - i,
    {
        if eq_ignore_ascii_case(label, aliases[i]) {
            return true;
        }
        i = i + 1;
    }
    false
}

/// Every string equals itself up to ASCII case.
pub proof fn lemma_str_eq_ignore_ascii_case_refl(s: Seq<char>)
    ensures
        str_eq_ignore_ascii_case(s, s),
{
}

/// Equality up to ASCII case is symmetric and holds exactly when the two UTF-8 byte
/// strings lowercase, byte by byte, to the same string; in particular, equal labels have
/// the same length, so no label equals a proper prefix or extension of another.
pub proof fn lemma_eq_ignore_ascii_case_is_lowercase_equality(a: Seq<char>, b: Seq<char>)
    ensures
        str_eq_ignore_ascii_case(a, b) == str_eq_ignore_ascii_case(b, a),
        str_eq_ignore_ascii_case(a, b) <==> encode_utf8(a).map_values(|x: u8| ascii_lower(x))
            == encode_utf8(b).map_values(|x: u8| ascii_lower(x)),
        str_eq_ignore_ascii_case(a, b) ==> encode_utf8(a).len() == encode_utf8(b).len(),
{
    let x = encode_utf8(a);
    let y = encode_utf8(b);
    let lx = x.map_values(|v: u8| ascii_lower(v));
    let ly = y.map_values(|v: u8| ascii_lower(v));
    if str_eq_ignore_ascii_case(a, b) {
        assert(lx =~= ly);
    }
    assert(lx.len() == x.len() && ly.len() == y.len());
    if lx == ly {
        assert(x.len() == y.len());
        assert forall|i: int| 0 <= i < x.len() implies #[trigger] ascii_lower(x[i]) == ascii_lower(
            y[i],
        ) by {
            assert(lx[i] == ly[i]);
        }
    }
}

} // verus!
