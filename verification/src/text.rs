//! Text helpers: comparison, prefixes, concatenation and case.

use vstd::prelude::*;
use vstd::string::*;

verus! {

/// The characters of each string of a list.
pub open spec fn texts(strings: Seq<String>) -> Seq<Seq<char>> {
    Seq::new(strings.len(), |i: int| strings[i]@)
}

/// Whether two strings hold the same characters.
pub fn same_text(a: &str, b: &str) -> (same: bool)
    ensures
        same == (a@ == b@),
{
    broadcast use vstd::utf8::encode_utf8_decode_utf8;

    let left = a.as_bytes();
    let right = b.as_bytes();
    proof {
        assert(vstd::utf8::decode_utf8(a.spec_bytes()) == a@);
        assert(vstd::utf8::decode_utf8(b.spec_bytes()) == b@);
    }
    if left.len() != right.len() {
        return false;
    }
    let mut i: usize = 0;
    while i < left.len()
        invariant
            i <= left@.len(),
            left@.len() == right@.len(),
            left@ == a.spec_bytes(),
            right@ == b.spec_bytes(),
            forall|j: int| 0 <= j < i ==> left@[j] == right@[j],
        decreases left@.len() - i,
    {
        if left[i] != right[i] {
            assert(left@ != right@);
            return false;
        }
        i = i + 1;
    }
    assert(left@ =~= right@);
    true
}

/// Whether `s` begins with the two characters `::`.
pub open spec fn begins_with_colons(s: Seq<char>) -> bool {
    s.len() >= 2 && s[0] == ':' && s[1] == ':'
}

/// Decides [`begins_with_colons`].
pub fn starts_with_colons(s: &str) -> (yes: bool)
    ensures
        yes == begins_with_colons(s@),
{
    s.unicode_len() >= 2 && s.get_char(0) == ':' && s.get_char(1) == ':'
}

/// `a` followed by `b`.
pub fn joined(a: &str, b: &str) -> (r: String)
    ensures
        r@ == a@ + b@,
{
    let mut r: String = a.to_owned();
    r.append(b);
    r
}

/// The Unicode uppercase of a string.
pub uninterp spec fn unicode_uppercase(s: Seq<char>) -> Seq<char>;

/// The capital of an ASCII letter; any other character itself.
pub open spec fn ascii_capital(c: char) -> char {
    if 'a' <= c <= 'z' {
        (c as u8 - 32) as char
    } else {
        c
    }
}

/// Whether all characters are ASCII.
pub open spec fn ascii_text(s: Seq<char>) -> bool {
    forall|i: int| 0 <= i < s.len() ==> (#[trigger] s[i]) as u32 <= 127
}

/// A text with its ASCII letters as capitals.
pub open spec fn ascii_capitals(s: Seq<char>) -> Seq<char> {
    s.map_values(|c: char| ascii_capital(c))
}

/// The uppercase of a string.
pub open spec fn uppercase_of(s: Seq<char>) -> Seq<char> {
    if ascii_text(s) {
        ascii_capitals(s)
    } else {
        unicode_uppercase(s)
    }
}

/// Calls `str::to_uppercase`.
///
/// Believed of it: the result depends on the characters alone, and on ASCII text it
/// capitalises each letter and leaves every other character as it is.
#[verifier::external_body]
pub(crate) fn uppercase(s: &str) -> (upper: String)
    ensures
        upper@ == unicode_uppercase(s@),
        ascii_text(s@) ==> upper@ == ascii_capitals(s@),
{
    s.to_uppercase()
}

}
