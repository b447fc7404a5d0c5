//! Text helpers: building strings character by character, UTF-8 decoding
//! and the `Debug` form of values, all through the standard library.

use vstd::prelude::*;
use vstd::utf8::{decode_utf8, valid_utf8};

verus! {

/// The text that `Debug` writes for a string: quoted, with `char::escape_debug`
/// applied to each character. The exact text is the standard library's,
/// whose documentation does not fix the `Debug` format.
pub uninterp spec fn string_debug_text(s: Seq<char>) -> Seq<char>;

/// The text that `Debug` writes for the iterator `values.iter().map(..)`
/// over raw register values, which shows the underlying slice iterator.
/// The exact text is the standard library's, whose documentation does not
/// fix the `Debug` format.
pub uninterp spec fn raw_debug_text(values: Seq<u16>) -> Seq<char>;

/// `String::push`: appends one character.
#[verifier::external_body]
pub(crate) fn push_char(s: &mut String, c: char)
    ensures
        final(s)@ == old(s)@.push(c),
{
    s.push(c);
}

/// `String::from_utf8`: the string that the bytes encode, when they are
/// valid UTF-8 (as the standard library documents), none otherwise.
#[verifier::external_body]
pub(crate) fn utf8_to_string(bytes: Vec<u8>) -> (r: Option<String>)
    ensures
        r is Some <==> valid_utf8(bytes@),
        r matches Some(s) ==> s@ == decode_utf8(bytes@),
{
    match String::from_utf8(bytes) {
        Ok(s) => Some(s),
        Err(_) => None,
    }
}

/// `format!("{:?}", s)` for a string. The contract claims that the text is
/// the named `Debug` text of the string.
#[verifier::external_body]
pub(crate) fn debug_string(s: &String) -> (r: String)
    ensures
        r@ == string_debug_text(s@),
{
    format!("{:?}", s)
}

/// `format!("{:?}", ..)` of the iterator that maps the raw register values.
/// The contract claims that the text is the named `Debug` text.
#[verifier::external_body]
pub(crate) fn debug_raw_values(values: &Vec<u16>) -> (r: String)
    ensures
        r@ == raw_debug_text(values@),
{
    format!("{:?}", values.iter().map(|num| *num))
}

/// A copy of a string.
pub fn copy_string(s: &String) -> (r: String)
    ensures
        r@ == s@,
{
    s.clone()
}

/// Concatenation of two strings.
pub fn concat(a: &String, b: &String) -> (r: String)
    ensures
        r@ == a@ + b@,
{
    let mut r = a.clone();
    r.append(b.as_str());
    r
}

} // verus!
