//! The model that the contracts speak of: texts and lines are sequences of
//! characters, a body of text is a sequence of lines.

use vstd::prelude::*;
use crate::strings::lowercase_of;

verus! {

/// `needle` stands in `hay` as a contiguous run that begins at index `at`.
pub open spec fn occurs_at(hay: Seq<char>, needle: Seq<char>, at: int) -> bool {
    &&& 0 <= at
    &&& at + needle.len() <= hay.len()
    &&& hay.subrange(at, at + needle.len()) == needle
}

/// `needle` is a contiguous substring of `hay`.
pub open spec fn contains(hay: Seq<char>, needle: Seq<char>) -> bool {
    exists|at: int| occurs_at(hay, needle, at)
}

/// The number of characters before the first line feed of `text`, which is
/// the whole length where it holds none.
pub open spec fn first_newline(text: Seq<char>) -> nat
    decreases text.len(),
{
    if text.len() == 0 || text[0] == '\n' {
        0
    } else {
        1 + first_newline(text.drop_first())
    }
}

/// A line as it stood before its line feed, without the carriage return that
/// belongs to the terminator.
pub open spec fn without_cr(line: Seq<char>) -> Seq<char> {
    if line.len() > 0 && line.last() == '\r' {
        line.drop_last()
    } else {
        line
    }
}

/// The lines of `text`, in order. A line ends at a line feed, or at a carriage
/// return directly followed by one; the terminator is no part of the line. The
/// last line needs no terminator, and is then taken as it stands. A text that
/// ends in a terminator has no empty line after it.
pub open spec fn lines_of(text: Seq<char>) -> Seq<Seq<char>>
    decreases text.len(),
{
    let n = first_newline(text) as int;
    if text.len() == 0 {
        Seq::empty()
    } else if n >= text.len() {
        seq![text]
    } else {
        seq![without_cr(text.take(n))] + lines_of(text.skip(n + 1))
    }
}

/// Of `lines`, those whose key contains `needle`, in their order. The key of a
/// line is the entry of `keys` at the line's index.
pub open spec fn keep_matching(
    lines: Seq<Seq<char>>,
    keys: Seq<Seq<char>>,
    needle: Seq<char>,
) -> Seq<Seq<char>>
    recommends
        lines.len() == keys.len(),
    decreases lines.len(),
{
    if lines.len() == 0 {
        Seq::empty()
    } else {
        let before = keep_matching(lines.drop_last(), keys.drop_last(), needle);
        if contains(keys.last(), needle) {
            before.push(lines.last())
        } else {
            before
        }
    }
}

/// The lines of `text` that contain `query`, in their order.
pub open spec fn matching_lines(query: Seq<char>, text: Seq<char>) -> Seq<Seq<char>> {
    keep_matching(lines_of(text), lines_of(text), query)
}

/// The lowercase form of each line, at the line's index.
pub open spec fn folded(lines: Seq<Seq<char>>) -> Seq<Seq<char>> {
    Seq::new(lines.len(), |i: int| lowercase_of(lines[i]))
}

/// The lines of `text` whose lowercase form contains the lowercase form of
/// `query`, in their order and as they stand in `text`.
pub open spec fn matching_lines_folded(query: Seq<char>, text: Seq<char>) -> Seq<Seq<char>> {
    keep_matching(lines_of(text), folded(lines_of(text)), lowercase_of(query))
}

} // verus!
