//! Case conversions of identifiers, done by the `heck` crate and by std.
use heck::{ToLowerCamelCase, ToUpperCamelCase};
use vstd::prelude::*;

verus! {

/// What `heck`'s upper camel case conversion returns for `s`.
pub uninterp spec fn upper_camel_case(s: Seq<char>) -> Seq<char>;

/// What `heck`'s lower camel case conversion returns for `s`.
pub uninterp spec fn lower_camel_case(s: Seq<char>) -> Seq<char>;

/// What std's Unicode upper-casing of a string returns for `s`.
pub uninterp spec fn uppercase(s: Seq<char>) -> Seq<char>;

/// Calls `heck::ToUpperCamelCase::to_upper_camel_case` on `str`. Claimed: the result
/// depends on the text of `s` alone, and is named `upper_camel_case(s@)`.
#[verifier::external_body]
pub(crate) fn to_upper_camel_case(s: &str) -> (r: String)
    ensures
        r@ == upper_camel_case(s@),
{
    s.to_upper_camel_case()
}

/// Calls `heck::ToLowerCamelCase::to_lower_camel_case` on `str`. Claimed: the result
/// depends on the text of `s` alone, and is named `lower_camel_case(s@)`.
#[verifier::external_body]
pub(crate) fn to_lower_camel_case(s: &str) -> (r: String)
    ensures
        r@ == lower_camel_case(s@),
{
    s.to_lower_camel_case()
}

/// Whether every character of `s` is ASCII.
pub open spec fn ascii(s: Seq<char>) -> bool {
    forall|i: int| 0 <= i < s.len() ==> (#[trigger] s[i] as u32) < 128
}

/// The upper case of an ASCII character: a lower-case letter becomes its capital, any
/// other character stays.
pub open spec fn ascii_upper(c: char) -> char {
    if 'a' <= c && c <= 'z' {
        ((c as u32) - 32) as char
    } else {
        c
    }
}

/// Calls std's `str::to_uppercase`. Claimed: the result depends on the text of `s` alone,
/// and is named `uppercase(s@)`; for an ASCII text each lower-case letter becomes its
/// capital. What Unicode's case mapping does to other characters is left unsaid.
#[verifier::external_body]
pub(crate) fn to_uppercase(s: &str) -> (r: String)
    ensures
        r@ == uppercase(s@),
        ascii(s@) ==> r@ == s@.map_values(|c: char| ascii_upper(c)),
{
    s.to_uppercase()
}

} // verus!
