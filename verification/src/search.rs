//! The search itself: which lines of a text are kept, and what is returned
//! for them.

use vstd::prelude::*;
use crate::highlight::{Highlight, Markers, render, rendered, terminal_markers};
use crate::scan::{chars_of, contains, split_lines, views};
use crate::text::{MatchMode, contains_query, lines_of};

verus! {

/// The test that decides whether a line is kept.
pub open spec fn keeps(query: Seq<char>, mode: MatchMode) -> spec_fn(Seq<char>) -> bool {
    |line: Seq<char>| contains_query(line, query, mode)
}

/// The lines of `contents` that contain `query`, in their order in `contents`.
pub open spec fn matching_lines(query: Seq<char>, contents: Seq<char>, mode: MatchMode) -> Seq<
    Seq<char>,
> {
    lines_of(contents).filter(keeps(query, mode))
}

/// Each of `lines` as `rendered` writes it, in the same order.
pub open spec fn rendered_all(
    query: Seq<char>,
    lines: Seq<Seq<char>>,
    mode: MatchMode,
    marks: Markers,
) -> Seq<Seq<char>> {
    Seq::new(lines.len(), |i: int| rendered(query, lines[i], mode, marks))
}

/// What a search returns: one entry for each line of `contents` that
/// contains `query`, in the order of the lines, each written out word by word
/// with its matching words between the markers. Every entry ends in one
/// space, so that none is empty.
pub open spec fn search_result(
    query: Seq<char>,
    contents: Seq<char>,
    mode: MatchMode,
    marks: Markers,
) -> Seq<Seq<char>> {
    rendered_all(query, matching_lines(query, contents, mode), mode, marks)
}

/// What is returned for one line: nothing where the line does not contain
/// `query`; where it does, the line written out word by word, which ends in
/// one space and is that space alone where the line has no words.
pub open spec fn line_result(
    query: Seq<char>,
    line: Seq<char>,
    mode: MatchMode,
    marks: Markers,
) -> Option<Seq<char>> {
    if contains_query(line, query, mode) {
        Some(rendered(query, line, mode, marks))
    } else {
        None
    }
}

/// Matches one line, given as characters: returns nothing where `line` does
/// not contain `query` under `mode`, and the line written out word by word
/// where it does.
pub fn match_chars(query: &[char], line: &[char], mode: MatchMode, style: &Highlight) -> (r:
    Option<String>)
    ensures
        r.deep_view() == line_result(query@, line@, mode, style@),
{
    if contains(line, query, mode) {
        Some(render(query, line, mode, style))
    } else {
        None
    }
}

/// Searches a text, given as characters: matches its lines one by one, in
/// order, and collects what is returned for those that contain `query`.
pub fn search_chars(query: &[char], contents: &[char], mode: MatchMode, style: &Highlight) -> (r:
    Vec<String>)
    ensures
        r.deep_view() == search_result(query@, contents@, mode, style@),
{
    let lines = split_lines(contents);
    let mut found: Vec<String> = Vec::new();
    let mut i: usize = 0;
    while i < lines.len()
        invariant
            i <= lines.len(),
            views(lines@) == lines_of(contents@),
            found.deep_view() == rendered_all(
                query@,
                views(lines@).take(i as int).filter(keeps(query@, mode)),
                mode,
                style@,
            ),
        decreases lines.len() - i,
    {
        let ghost seen = views(lines@).take(i as int);
        let ghost kept = seen.filter(keeps(query@, mode));
        let line = lines[i];
        proof {
            assert(views(lines@).take(i + 1) =~= seen.push(line@));
            seen.lemma_filter_push(line@, keeps(query@, mode));
        }
        if let Some(entry) = match_chars(query, line, mode, style) {
            found.push(entry);
            proof {
                assert(rendered_all(query@, kept.push(line@), mode, style@) =~= rendered_all(
                    query@,
                    kept,
                    mode,
                    style@,
                ).push(rendered(query@, line@, mode, style@)));
            }
        }
        i += 1;
    }
    assert(views(lines@).take(lines.len() as int) =~= views(lines@));
    found
}

/// Matches one line: returns nothing where `line` does not contain `query`
/// under `mode`. Where it does, returns the line written out word by word,
/// each word followed by one space, and each word that itself contains `query`
/// between the markers of `style`. White space between the words is not
/// kept, and a line without words is returned as one space.
pub fn match_line(query: &str, line: &str, mode: MatchMode, style: &Highlight) -> (r: Option<
    String,
>)
    ensures
        r.deep_view() == line_result(query@, line@, mode, style@),
{
    let q = chars_of(query);
    let l = chars_of(line);
    match_chars(q.as_slice(), l.as_slice(), mode, style)
}

/// Searches `contents` for `query`: returns one entry for each line that
/// contains `query` under `mode`, in the order of the lines, each as
/// `match_line` writes it. No match is no error: the result is empty. The
/// result depends on the arguments alone, so that the same arguments always
/// give the same entries.
pub fn search_with(query: &str, contents: &str, mode: MatchMode, style: &Highlight) -> (r: Vec<
    String,
>)
    ensures
        r.deep_view() == search_result(query@, contents@, mode, style@),
{
    let q = chars_of(query);
    let text = chars_of(contents);
    search_chars(q.as_slice(), text.as_slice(), mode, style)
}

/// Case-sensitive search with the markers for a terminal: `search_with` under
/// `MatchMode::CaseSensitive` and `Highlight::terminal()`.
pub fn search(query: &str, contents: &str) -> (r: Vec<String>)
    ensures
        r.deep_view() == search_result(
            query@,
            contents@,
            MatchMode::CaseSensitive,
            terminal_markers(),
        ),
{
    let style = Highlight::terminal();
    search_with(query, contents, MatchMode::CaseSensitive, &style)
}

/// Case-insensitive search with the markers for a terminal: `search_with`
/// under `MatchMode::CaseInsensitive` and `Highlight::terminal()`.
pub fn search_case_insensitive(query: &str, contents: &str) -> (r: Vec<String>)
    ensures
        r.deep_view() == search_result(
            query@,
            contents@,
            MatchMode::CaseInsensitive,
            terminal_markers(),
        ),
{
    let style = Highlight::terminal();
    search_with(query, contents, MatchMode::CaseInsensitive, &style)
}

} // verus!
