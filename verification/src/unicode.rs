//! Letter case beyond ASCII, as the standard library has it.

use vstd::prelude::*;

use crate::strs::{ascii_lowered, is_ascii_lower};
use vstd::utf8::is_ascii_chars;

verus! {

/// The lower-case form of a text.
pub uninterp spec fn lowercase_of(s: Seq<char>) -> Seq<char>;

/// `str::to_lowercase`: the text with every letter in lower case as Unicode has
/// it, which for a text of ASCII characters changes its capital letters alone.
#[verifier::external_body]
pub(crate) fn lowercase(s: &str) -> (r: String)
    ensures
        r@ == lowercase_of(s@),
        is_ascii_chars(s@) ==> r@ == ascii_lowered(s@),
{
    s.to_lowercase()
}

/// The upper-case form of a character, which may take several.
pub uninterp spec fn uppercase_of(c: char) -> Seq<char>;

/// `char::to_uppercase`: the upper-case form of a character as Unicode has it, at
/// least one character long, which for a small ASCII letter is its capital.
#[verifier::external_body]
pub(crate) fn uppercase(c: char) -> (r: String)
    ensures
        r@ == uppercase_of(c),
        r@.len() > 0,
        is_ascii_lower(c) ==> r@ == seq![(c as u32 - 32) as char],
{
    c.to_uppercase().to_string()
}

} // verus!
