//! The string functions of the standard library that the searches call and
//! that come without a specification. What stands here is taken on trust
//! from their documentation; everything else in the crate is proved from it.

use vstd::prelude::*;
use crate::text::{contains, lines_of};

verus! {

/// The lowercase form that `str::to_lowercase` gives a text. It follows the
/// Unicode tables that the standard library carries and reads no locale, so
/// one text always has one lowercase form. Nothing more is assumed of it.
pub uninterp spec fn lowercase_of(text: Seq<char>) -> Seq<char>;

/// `str::to_lowercase` returns the lowercase equivalent of its argument as a
/// new string. Its documentation describes the change character by
/// character, of which one may become several, so a text without characters
/// stays without characters.
pub assume_specification[ str::to_lowercase ](s: &str) -> (lower: String)
    ensures
        lower@ == lowercase_of(s@),
        s@.len() == 0 ==> lower@.len() == 0,
;

/// Calls `str::lines` and collects what the iterator yields. The standard
/// library documents that lines are split at `\n` or `\r\n`, that the
/// terminator is not part of a line, that a carriage return with no line
/// feed directly behind it splits nothing and stays in its line, that the
/// final terminator is optional, and that the empty string has no lines:
/// that is `lines_of`. Each line is a slice of `text` itself.
#[verifier::external_body]
pub(crate) fn split_lines<'a>(text: &'a str) -> (lines: Vec<&'a str>)
    ensures
        lines.deep_view() == lines_of(text@),
{
    text.lines().collect()
}

/// Calls `str::contains` with a string as the pattern, which the standard
/// library documents to be true if the pattern matches a sub-slice of the
/// string and false if it does not. A sub-slice of a string is a run of its
/// characters, and a string matches one that holds the same characters.
#[verifier::external_body]
pub(crate) fn has_substring(hay: &str, needle: &str) -> (found: bool)
    ensures
        found == contains(hay@, needle@),
{
    hay.contains(needle)
}

} // verus!
