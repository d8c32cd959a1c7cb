//! What holds of the searches for every query and every text.

use vstd::prelude::*;
use crate::strings::lowercase_of;
use crate::text::{
    contains, first_newline, folded, keep_matching, lines_of, matching_lines,
    matching_lines_folded, occurs_at, without_cr,
};

verus! {

/// `kept` is what is left of `lines` when exactly the lines whose key
/// contains `needle` stay: `at` gives, for each line of `kept`, the index
/// that it has in `lines`, and these indices ascend.
pub open spec fn is_selection(
    lines: Seq<Seq<char>>,
    keys: Seq<Seq<char>>,
    needle: Seq<char>,
    kept: Seq<Seq<char>>,
    at: Seq<int>,
) -> bool {
    &&& at.len() == kept.len()
    &&& forall|k: int| 0 <= k < at.len() ==> 0 <= #[trigger] at[k] < lines.len()
    &&& forall|j: int, k: int| 0 <= j < k < at.len() ==> #[trigger] at[j] < #[trigger] at[k]
    &&& forall|k: int| 0 <= k < at.len() ==> #[trigger] kept[k] == lines[at[k]]
    &&& forall|k: int| 0 <= k < at.len() ==> contains(keys[#[trigger] at[k]], needle)
    &&& forall|i: int|
        0 <= i < lines.len() && contains(#[trigger] keys[i], needle) ==> at.contains(i)
}

/// A selection keeps the lines whose key contains the needle, all of them
/// and no others, in their order and each as often as it stands in `lines`.
pub proof fn selection_is_exact(
    lines: Seq<Seq<char>>,
    keys: Seq<Seq<char>>,
    needle: Seq<char>,
) -> (at: Seq<int>)
    requires
        lines.len() == keys.len(),
    ensures
        is_selection(lines, keys, needle, keep_matching(lines, keys, needle), at),
    decreases lines.len(),
{
    if lines.len() == 0 {
        Seq::empty()
    } else {
        let last = lines.len() - 1;
        let before = selection_is_exact(lines.drop_last(), keys.drop_last(), needle);
        let at = if contains(keys.last(), needle) {
            before.push(last)
        } else {
            before
        };
        assert forall|k: int| 0 <= k < at.len() implies contains(
            keys[#[trigger] at[k]],
            needle,
        ) by {
            if k < before.len() {
                assert(keys[before[k]] == keys.drop_last()[before[k]]);
            }
        }
        assert forall|i: int|
            0 <= i < lines.len() && contains(#[trigger] keys[i], needle) implies at.contains(
            i,
        ) by {
            if i < last {
                assert(keys.drop_last()[i] == keys[i]);
                let k = choose|k: int| 0 <= k < before.len() && before[k] == i;
                assert(at[k] == i);
            } else {
                assert(at[at.len() - 1] == i);
            }
        }
        at
    }
}

/// The case-sensitive search is sound and complete: every line that it
/// returns contains the query, every line of the text that contains the
/// query is returned, and the lines come back as they stand in the text, in
/// the order of the text and none more often than there. `at` gives the
/// index in the text's lines of each line returned.
pub proof fn search_is_sound_and_complete(query: Seq<char>, text: Seq<char>) -> (at: Seq<int>)
    ensures
        at.len() == matching_lines(query, text).len(),
        forall|k: int| 0 <= k < at.len() ==> 0 <= #[trigger] at[k] < lines_of(text).len(),
        forall|j: int, k: int| 0 <= j < k < at.len() ==> #[trigger] at[j] < #[trigger] at[k],
        forall|k: int|
            0 <= k < at.len() ==> #[trigger] matching_lines(query, text)[k] == lines_of(
                text,
            )[at[k]],
        forall|k: int|
            0 <= k < at.len() ==> contains(#[trigger] matching_lines(query, text)[k], query),
        forall|i: int|
            0 <= i < lines_of(text).len() && contains(#[trigger] lines_of(text)[i], query)
                ==> at.contains(i),
{
    let lines = lines_of(text);
    let at = selection_is_exact(lines, lines, query);
    assert forall|k: int| 0 <= k < at.len() implies contains(
        #[trigger] matching_lines(query, text)[k],
        query,
    ) by {
        assert(contains(lines[at[k]], query));
    }
    at
}

/// The search that ignores case returns a line exactly if the lowercase form
/// of the line contains the lowercase form of the query, and returns it as
/// it stands in the text, in the order of the text and no more often than
/// there. `at` gives the index in the text's lines of each line returned.
pub proof fn folded_search_is_sound_and_complete(query: Seq<char>, text: Seq<char>) -> (at:
    Seq<int>)
    ensures
        at.len() == matching_lines_folded(query, text).len(),
        forall|k: int| 0 <= k < at.len() ==> 0 <= #[trigger] at[k] < lines_of(text).len(),
        forall|j: int, k: int| 0 <= j < k < at.len() ==> #[trigger] at[j] < #[trigger] at[k],
        forall|k: int|
            0 <= k < at.len() ==> #[trigger] matching_lines_folded(query, text)[k] == lines_of(
                text,
            )[at[k]],
        forall|k: int|
            0 <= k < at.len() ==> contains(
                lowercase_of(#[trigger] matching_lines_folded(query, text)[k]),
                lowercase_of(query),
            ),
        forall|i: int|
            0 <= i < lines_of(text).len() && contains(
                lowercase_of(#[trigger] lines_of(text)[i]),
                lowercase_of(query),
            ) ==> at.contains(i),
{
    let lines = lines_of(text);
    let keys = folded(lines);
    let at = selection_is_exact(lines, keys, lowercase_of(query));
    assert forall|k: int| 0 <= k < at.len() implies contains(
        lowercase_of(#[trigger] matching_lines_folded(query, text)[k]),
        lowercase_of(query),
    ) by {
        assert(contains(keys[at[k]], lowercase_of(query)));
    }
    assert forall|i: int|
        0 <= i < lines.len() && contains(
            lowercase_of(#[trigger] lines[i]),
            lowercase_of(query),
        ) implies at.contains(i) by {
        assert(contains(keys[i], lowercase_of(query)));
    }
    at
}

/// `first_newline` gives the index of a line feed, none stands before it, and
/// where the text holds no line feed it gives the text's length.
pub proof fn first_newline_is_least(text: Seq<char>)
    ensures
        first_newline(text) <= text.len(),
        forall|j: int| 0 <= j < first_newline(text) ==> text[j] != '\n',
        first_newline(text) < text.len() ==> text[first_newline(text) as int] == '\n',
    decreases text.len(),
{
    if text.len() != 0 && text[0] != '\n' {
        let rest = text.drop_first();
        first_newline_is_least(rest);
        assert forall|j: int| 0 <= j < first_newline(text) implies text[j] != '\n' by {
            if j > 0 {
                assert(text[j] == rest[j - 1]);
            }
        }
        if first_newline(text) < text.len() {
            assert(text[first_newline(text) as int] == rest[first_newline(rest) as int]);
        }
    }
}

/// No line holds a line feed.
pub proof fn lines_hold_no_line_feed(text: Seq<char>)
    ensures
        forall|i: int, j: int|
            0 <= i < lines_of(text).len() && 0 <= j < lines_of(text)[i].len()
                ==> #[trigger] lines_of(text)[i][j] != '\n',
    decreases text.len(),
{
    first_newline_is_least(text);
    let n = first_newline(text) as int;
    if text.len() != 0 && n < text.len() {
        let head = without_cr(text.take(n));
        let rest = text.skip(n + 1);
        lines_hold_no_line_feed(rest);
        let lines = lines_of(text);
        assert forall|i: int, j: int|
            0 <= i < lines.len() && 0 <= j < lines[i].len() implies #[trigger] lines[i][j]
            != '\n' by {
            if i == 0 {
                assert(head[j] == text[j]);
            } else {
                assert(lines[i] == lines_of(rest)[i - 1]);
            }
        }
    }
}

/// The empty text is a substring of every text.
pub proof fn nothing_occurs_everywhere(hay: Seq<char>)
    ensures
        contains(hay, Seq::<char>::empty()),
{
    assert(hay.subrange(0, 0) =~= Seq::<char>::empty());
    assert(occurs_at(hay, Seq::<char>::empty(), 0));
}

/// A substring of a substring of a text is a substring of that text.
pub proof fn substring_of_substring(text: Seq<char>, part: Seq<char>, needle: Seq<char>)
    requires
        contains(text, part),
        contains(part, needle),
    ensures
        contains(text, needle),
{
    let p = choose|at: int| occurs_at(text, part, at);
    let q = choose|at: int| occurs_at(part, needle, at);
    assert(text.subrange(p + q, p + q + needle.len()) =~= text.subrange(
        p,
        p + part.len(),
    ).subrange(q, q + needle.len()));
    assert(occurs_at(text, needle, p + q));
}

/// Every line of a text is a substring of the text.
pub proof fn lines_are_substrings(text: Seq<char>)
    ensures
        forall|i: int|
            0 <= i < lines_of(text).len() ==> contains(text, #[trigger] lines_of(text)[i]),
    decreases text.len(),
{
    first_newline_is_least(text);
    let n = first_newline(text) as int;
    if text.len() == 0 {
    } else if n >= text.len() {
        assert(text.subrange(0, text.len() as int) =~= text);
        assert(occurs_at(text, text, 0));
    } else {
        let head = without_cr(text.take(n));
        let rest = text.skip(n + 1);
        lines_are_substrings(rest);
        assert forall|i: int| 0 <= i < lines_of(text).len() implies contains(
            text,
            #[trigger] lines_of(text)[i],
        ) by {
            if i == 0 {
                assert(text.subrange(0, head.len() as int) =~= head);
                assert(occurs_at(text, head, 0));
            } else {
                let line = lines_of(rest)[i - 1];
                assert(lines_of(text)[i] == line);
                let p = choose|at: int| occurs_at(rest, line, at);
                assert(text.subrange(n + 1 + p, n + 1 + p + line.len()) =~= rest.subrange(
                    p,
                    p + line.len(),
                ));
                assert(occurs_at(text, line, n + 1 + p));
            }
        }
    }
}

/// Where every key contains the needle, every line is kept.
pub proof fn all_match_keeps_all(lines: Seq<Seq<char>>, keys: Seq<Seq<char>>, needle: Seq<char>)
    requires
        lines.len() == keys.len(),
        forall|i: int| 0 <= i < keys.len() ==> contains(#[trigger] keys[i], needle),
    ensures
        keep_matching(lines, keys, needle) == lines,
    decreases lines.len(),
{
    if lines.len() > 0 {
        assert forall|i: int| 0 <= i < keys.drop_last().len() implies contains(
            #[trigger] keys.drop_last()[i],
            needle,
        ) by {
            assert(keys.drop_last()[i] == keys[i]);
        }
        all_match_keeps_all(lines.drop_last(), keys.drop_last(), needle);
        assert(contains(keys[keys.len() - 1], needle));
        assert(lines.drop_last().push(lines.last()) =~= lines);
    } else {
        assert(lines =~= Seq::empty());
    }
}

/// Where no key contains the needle, no line is kept.
pub proof fn none_match_keeps_none(lines: Seq<Seq<char>>, keys: Seq<Seq<char>>, needle: Seq<char>)
    requires
        lines.len() == keys.len(),
        forall|i: int| 0 <= i < keys.len() ==> !contains(#[trigger] keys[i], needle),
    ensures
        keep_matching(lines, keys, needle) == Seq::<Seq<char>>::empty(),
    decreases lines.len(),
{
    if lines.len() > 0 {
        assert forall|i: int| 0 <= i < keys.drop_last().len() implies !contains(
            #[trigger] keys.drop_last()[i],
            needle,
        ) by {
            assert(keys.drop_last()[i] == keys[i]);
        }
        none_match_keeps_none(lines.drop_last(), keys.drop_last(), needle);
        assert(!contains(keys[keys.len() - 1], needle));
    }
}

/// The empty query finds every line of the text, unchanged and in order.
pub proof fn empty_query_finds_every_line(text: Seq<char>)
    ensures
        matching_lines(Seq::<char>::empty(), text) == lines_of(text),
{
    let lines = lines_of(text);
    assert forall|i: int| 0 <= i < lines.len() implies contains(
        #[trigger] lines[i],
        Seq::<char>::empty(),
    ) by {
        nothing_occurs_everywhere(lines[i]);
    }
    all_match_keeps_all(lines, lines, Seq::<char>::empty());
}

/// A query whose lowercase form is empty finds every line of the text in
/// the search that ignores case, unchanged and in order.
pub proof fn empty_folded_query_finds_every_line(query: Seq<char>, text: Seq<char>)
    ensures
        lowercase_of(query).len() == 0 ==> matching_lines_folded(query, text) == lines_of(text),
{
    if lowercase_of(query).len() == 0 {
        let lines = lines_of(text);
        let keys = folded(lines);
        assert(lowercase_of(query) =~= Seq::<char>::empty());
        assert forall|i: int| 0 <= i < keys.len() implies contains(
            #[trigger] keys[i],
            lowercase_of(query),
        ) by {
            nothing_occurs_everywhere(keys[i]);
        }
        all_match_keeps_all(lines, keys, lowercase_of(query));
    }
}

/// A query that stands nowhere in the text finds no line.
pub proof fn absent_query_finds_nothing(query: Seq<char>, text: Seq<char>)
    requires
        !contains(text, query),
    ensures
        matching_lines(query, text) == Seq::<Seq<char>>::empty(),
{
    let lines = lines_of(text);
    lines_are_substrings(text);
    assert forall|i: int| 0 <= i < lines.len() implies !contains(#[trigger] lines[i], query) by {
        if contains(lines[i], query) {
            substring_of_substring(text, lines[i], query);
        }
    }
    none_match_keeps_none(lines, lines, query);
}

/// In the search that ignores case, a query whose lowercase form stands in
/// the lowercase form of no line finds no line.
pub proof fn absent_folded_query_finds_nothing(query: Seq<char>, text: Seq<char>)
    ensures
        (forall|i: int|
            0 <= i < lines_of(text).len() ==> !contains(
                lowercase_of(#[trigger] lines_of(text)[i]),
                lowercase_of(query),
            )) ==> matching_lines_folded(query, text) == Seq::<Seq<char>>::empty(),
{
    let lines = lines_of(text);
    let keys = folded(lines);
    if forall|i: int|
        0 <= i < lines.len() ==> !contains(lowercase_of(#[trigger] lines[i]), lowercase_of(query)) {
        assert forall|i: int| 0 <= i < keys.len() implies !contains(
            #[trigger] keys[i],
            lowercase_of(query),
        ) by {
            assert(keys[i] == lowercase_of(lines[i]));
        }
        none_match_keeps_none(lines, keys, lowercase_of(query));
    }
}

} // verus!
