//! The searches: which lines of a text hold a query.

use vstd::prelude::*;
use crate::config::Config;
use crate::strings::{has_substring, lowercase_of, split_lines};
use crate::laws::{empty_folded_query_finds_every_line, empty_query_finds_every_line};
use crate::text::{folded, keep_matching, lines_of, matching_lines, matching_lines_folded};

verus! {

/// The lines of `contents` that contain `query`, each once, in the order in
/// which they stand in `contents`. The lines borrow from `contents`.
pub fn search<'a>(query: &str, contents: &'a str) -> (found: Vec<&'a str>)
    ensures
        found.deep_view() == matching_lines(query@, contents@),
        query@.len() == 0 ==> found.deep_view() == lines_of(contents@),
{
    proof {
        if query@.len() == 0 {
            assert(query@ =~= Seq::<char>::empty());
            empty_query_finds_every_line(contents@);
        }
    }
    let lines = split_lines(contents);
    let ghost all = lines.deep_view();
    let mut found: Vec<&'a str> = Vec::new();
    let mut i: usize = 0;
    while i < lines.len()
        invariant
            i <= lines.len(),
            all == lines.deep_view(),
            found.deep_view() == keep_matching(all.take(i as int), all.take(i as int), query@),
        decreases lines.len() - i,
    {
        let line = lines[i];
        let ghost before = found.deep_view();
        if has_substring(line, query) {
            found.push(line);
            assert(found.deep_view() =~= before.push(line@));
        }
        i += 1;
        assert(all.take(i as int).drop_last() =~= all.take(i - 1));
    }
    assert(all.take(i as int) =~= all);
    found
}

/// Of `lines`, those whose key contains `needle`, each once and in their
/// order. The key of a line is the entry of `keys` at the line's index.
pub fn select_lines<'a>(lines: &Vec<&'a str>, keys: &Vec<String>, needle: &str) -> (kept:
    Vec<&'a str>)
    requires
        lines.len() == keys.len(),
    ensures
        kept.deep_view() == keep_matching(lines.deep_view(), keys.deep_view(), needle@),
{
    let ghost all = lines.deep_view();
    let ghost all_keys = keys.deep_view();
    let mut kept: Vec<&'a str> = Vec::new();
    let mut i: usize = 0;
    while i < lines.len()
        invariant
            i <= lines.len(),
            lines.len() == keys.len(),
            all == lines.deep_view(),
            all_keys == keys.deep_view(),
            kept.deep_view() == keep_matching(
                all.take(i as int),
                all_keys.take(i as int),
                needle@,
            ),
        decreases lines.len() - i,
    {
        let line = lines[i];
        let ghost before = kept.deep_view();
        if has_substring(keys[i].as_str(), needle) {
            kept.push(line);
            assert(kept.deep_view() =~= before.push(line@));
        }
        i += 1;
        assert(all.take(i as int).drop_last() =~= all.take(i - 1));
        assert(all_keys.take(i as int).drop_last() =~= all_keys.take(i - 1));
    }
    assert(all.take(i as int) =~= all);
    assert(all_keys.take(i as int) =~= all_keys);
    kept
}

/// The lines of `contents` whose lowercase form contains the lowercase form
/// of `query`, each once, in the order in which they stand in `contents`, and
/// in their own casing. The lines borrow from `contents`.
pub fn search_case_insensitive<'a>(query: &str, contents: &'a str) -> (found: Vec<&'a str>)
    ensures
        found.deep_view() == matching_lines_folded(query@, contents@),
        query@.len() == 0 ==> found.deep_view() == lines_of(contents@),
{
    let needle = query.to_lowercase();
    proof {
        if query@.len() == 0 {
            empty_folded_query_finds_every_line(query@, contents@);
        }
    }
    let lines = split_lines(contents);
    let ghost all = lines.deep_view();
    let mut keys: Vec<String> = Vec::new();
    let mut i: usize = 0;
    while i < lines.len()
        invariant
            i <= lines.len(),
            all == lines.deep_view(),
            keys.deep_view() == folded(all.take(i as int)),
        decreases lines.len() - i,
    {
        let ghost before = keys.deep_view();
        let key = lines[i].to_lowercase();
        keys.push(key);
        assert(keys.deep_view() =~= before.push(lowercase_of(all[i as int])));
        i += 1;
        assert(keys.deep_view() =~= folded(all.take(i as int))) by {
            assert forall|j: int| 0 <= j < i - 1 implies keys.deep_view()[j] == lowercase_of(
                all.take(i as int)[j],
            ) by {
                assert(before[j] == lowercase_of(all.take(i - 1)[j]));
            }
        }
    }
    assert(all.take(i as int) =~= all);
    select_lines(&lines, &keys, needle.as_str())
}

/// The lines that one invocation prints, in the order in which it prints
/// them: those of `contents`, the text of the file that `config` names, that
/// hold the query of `config`, with or without regard to letter case as
/// `config` says.
pub fn run<'a>(config: &Config, contents: &'a str) -> (found: Vec<&'a str>)
    ensures
        config.case_sensitive ==> found.deep_view() == matching_lines(config.query@, contents@),
        !config.case_sensitive ==> found.deep_view() == matching_lines_folded(
            config.query@,
            contents@,
        ),
{
    if config.case_sensitive {
        search(config.query.as_str(), contents)
    } else {
        search_case_insensitive(config.query.as_str(), contents)
    }
}

} // verus!
