//! Small helpers on strings.

use vstd::prelude::*;
use vstd::utf8::encode_utf8_decode_utf8;
use crate::text::bytes_eq;

verus! {

/// Whether two string slices hold the same characters.
pub fn str_eq(a: &str, b: &str) -> (r: bool)
    ensures
        r == (a@ == b@),
{
    proof {
        encode_utf8_decode_utf8(a@);
        encode_utf8_decode_utf8(b@);
    }
    bytes_eq(a.as_bytes(), b.as_bytes())
}

/// The string made of these characters. Calls `String::from_iter` of std on
/// the characters in order, which appends each to an empty string.
#[verifier::external_body]
pub(crate) fn string_from_chars(chars: &Vec<char>) -> (r: String)
    ensures
        r@ == chars@,
{
    String::from_iter(chars.iter())
}

} // verus!
