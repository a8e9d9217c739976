//! Small trusted bridges to std's text handling.

use vstd::prelude::*;

verus! {

/// Whether a character counts as alphanumeric for display-name filtering.
/// The Unicode character classes behind this are far too large to restate,
/// so the result is named and every contract speaks of the name.
pub uninterp spec fn alnum_char(c: char) -> bool;

/// Whether a character counts as whitespace for display-name filtering.
pub uninterp spec fn white_char(c: char) -> bool;

/// Relies on char::is_alphanumeric: a pure character classification, the
/// same for the same character everywhere.
pub assume_specification[ char::is_alphanumeric ](c: char) -> (r: bool)
    ensures
        r == alnum_char(c),
;

/// Relies on char::is_whitespace: a pure character classification, the
/// same for the same character everywhere.
pub assume_specification[ char::is_whitespace ](c: char) -> (r: bool)
    ensures
        r == white_char(c),
;

/// Relies on String::push: appends exactly one character.
#[verifier::external_body]
pub fn push_char(s: &mut String, c: char)
    ensures
        final(s)@ == old(s)@.push(c),
{
    s.push(c);
}

/// Relies on String::from_utf8: succeeds exactly on valid UTF-8 and then
/// returns the string those bytes encode.
#[verifier::external_body]
pub fn string_from_utf8(bytes: Vec<u8>) -> (r: Option<String>)
    ensures
        match r {
            Some(s) => vstd::utf8::valid_utf8(bytes@) && s@ == vstd::utf8::decode_utf8(bytes@),
            None => !vstd::utf8::valid_utf8(bytes@),
        },
{
    match String::from_utf8(bytes) {
        Ok(s) => Some(s),
        Err(_) => None,
    }
}

} // verus!
