//! What the standard library tells of characters and texts, where `vstd`
//! says nothing of it.

use vstd::prelude::*;
use vstd::utf8::{encode_utf8, valid_utf8};

verus! {

/// Whether `c` counts as whitespace, as `char::is_whitespace` of the standard
/// library reports it.
pub uninterp spec fn is_whitespace(c: char) -> bool;

/// The lower-case form of `text`, as `str::to_lowercase` of the standard
/// library gives it.
pub uninterp spec fn lowercase(text: Seq<char>) -> Seq<char>;

/// Calls `char::is_whitespace`. Trusted: the answer depends on the character
/// alone, so it is the value that `is_whitespace` names.
#[verifier::external_body]
pub(crate) fn char_is_whitespace(c: char) -> (r: bool)
    ensures
        r == is_whitespace(c),
{
    c.is_whitespace()
}

/// Calls `str::to_lowercase`. Trusted: the result depends on the text alone,
/// so it is the value that `lowercase` names.
#[verifier::external_body]
pub(crate) fn to_lowercase(text: &str) -> (r: String)
    ensures
        r@ == lowercase(text@),
{
    text.to_lowercase()
}

/// Calls `core::str::from_utf8`. Trusted: it accepts the byte strings that
/// are valid UTF-8 and no others, and the text that it returns is encoded by
/// the very bytes given.
#[verifier::external_body]
pub(crate) fn text_of(bytes: &[u8]) -> (r: Option<&str>)
    ensures
        r is Some <==> valid_utf8(bytes@),
        r matches Some(text) ==> encode_utf8(text@) == bytes@,
{
    core::str::from_utf8(bytes).ok()
}

} // verus!
