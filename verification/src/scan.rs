//! Executable scanning of character slices: substring search and the cutting
//! of a text into lines and of a line into words.

use vstd::prelude::*;
use vstd::slice::slice_subrange;
use crate::chars::{is_whitespace, lower, to_lower};
use crate::text::{
    MatchMode, contains_query, key, line_body, line_len, lines_from, lines_of, occurs_at,
    word_len, words_from, words_of,
};

verus! {

/// The texts that a sequence of slices holds, in order.
pub open spec fn views(parts: Seq<&[char]>) -> Seq<Seq<char>> {
    Seq::new(parts.len(), |i: int| parts[i]@)
}

/// The character that is compared in place of `c` under `mode`.
spec fn key_char(c: char, mode: MatchMode) -> char {
    match mode {
        MatchMode::CaseSensitive => c,
        MatchMode::CaseInsensitive => lower(c),
    }
}

/// The characters of `s`, in order.
pub fn chars_of(s: &str) -> (v: Vec<char>)
    ensures
        v@ == s@,
{
    let mut v: Vec<char> = Vec::new();
    let chars = s.chars();
    for c in it: chars
        invariant
            it.seq() == s@,
            v@ == s@.take(it.index()),
    {
        v.push(c);
    }
    v
}

fn fold_char(c: char, mode: MatchMode) -> (r: char)
    ensures
        r == key_char(c, mode),
{
    match mode {
        MatchMode::CaseSensitive => c,
        MatchMode::CaseInsensitive => to_lower(c),
    }
}

/// Whether `needle` stands in `hay` at position `at` under `mode`.
pub fn matches_at(hay: &[char], needle: &[char], at: usize, mode: MatchMode) -> (r: bool)
    ensures
        r == occurs_at(key(hay@, mode), key(needle@, mode), at as int),
{
    if at > hay.len() || needle.len() > hay.len() - at {
        return false;
    }
    let ghost h = key(hay@, mode);
    let ghost n = key(needle@, mode);
    let mut k: usize = 0;
    while k < needle.len()
        invariant
            k <= needle@.len(),
            at + needle.len() <= hay.len(),
            h == key(hay@, mode),
            n == key(needle@, mode),
            forall|j: int| 0 <= j < k ==> h[at + j] == n[j],
        decreases needle@.len() - k,
    {
        if fold_char(hay[at + k], mode) != fold_char(needle[k], mode) {
            assert(h.subrange(at as int, at + n.len())[k as int] != n[k as int]);
            return false;
        }
        k += 1;
    }
    assert(h.subrange(at as int, at + n.len()) =~= n);
    true
}

/// Whether `hay` contains `needle` under `mode`.
pub fn contains(hay: &[char], needle: &[char], mode: MatchMode) -> (r: bool)
    ensures
        r == contains_query(hay@, needle@, mode),
{
    if needle.len() > hay.len() {
        return false;
    }
    let last: usize = hay.len() - needle.len();
    let mut at: usize = 0;
    loop
        invariant
            at <= last,
            last + needle@.len() == hay@.len(),
            forall|j: int| 0 <= j < at ==> !occurs_at(key(hay@, mode), key(needle@, mode), j),
        decreases last - at,
    {
        if matches_at(hay, needle, at, mode) {
            return true;
        }
        if at == last {
            return false;
        }
        at += 1;
    }
}

/// The position at which the line that starts at `from` stops: that of the
/// next line feed, or the end of the text.
pub fn line_end(text: &[char], from: usize) -> (end: usize)
    ensures
        end == from + line_len(text@, from as int),
        from <= text.len() ==> end <= text.len(),
{
    let mut end: usize = from;
    while end < text.len() && text[end] != '\n'
        invariant
            from <= end,
            from <= text.len() ==> end <= text.len(),
            from + line_len(text@, from as int) == end + line_len(text@, end as int),
        decreases text@.len() - end,
    {
        end += 1;
    }
    end
}

/// The position at which the word that starts at `from` stops: that of the
/// next white space, or the end of the line.
pub fn word_end(line: &[char], from: usize) -> (end: usize)
    ensures
        end == from + word_len(line@, from as int),
        from <= line.len() ==> end <= line.len(),
{
    let mut end: usize = from;
    while end < line.len() && !is_whitespace(line[end])
        invariant
            from <= end,
            from <= line.len() ==> end <= line.len(),
            from + word_len(line@, from as int) == end + word_len(line@, end as int),
        decreases line@.len() - end,
    {
        end += 1;
    }
    end
}

/// The lines of `text`, in order, each without its terminator.
pub fn split_lines<'a>(text: &'a [char]) -> (lines: Vec<&'a [char]>)
    ensures
        views(lines@) == lines_of(text@),
{
    let mut lines: Vec<&'a [char]> = Vec::new();
    let mut from: usize = 0;
    while from < text.len()
        invariant
            from <= text@.len(),
            lines_of(text@) == views(lines@) + lines_from(text@, from as int),
        decreases text@.len() - from,
    {
        let end: usize = line_end(text, from);
        let stop: usize = if from < end && end < text.len() && text[end - 1] == '\r' {
            end - 1
        } else {
            end
        };
        lines.push(slice_subrange(text, from, stop));
        assert(lines_of(text@) =~= views(lines@) + lines_from(text@, end + 1));
        from = if end < text.len() {
            end + 1
        } else {
            end
        };
    }
    lines
}

/// The words of `line`, in order.
pub fn split_words<'a>(line: &'a [char]) -> (words: Vec<&'a [char]>)
    ensures
        views(words@) == words_of(line@),
{
    let mut words: Vec<&'a [char]> = Vec::new();
    let mut from: usize = 0;
    while from < line.len()
        invariant
            from <= line@.len(),
            words_of(line@) == views(words@) + words_from(line@, from as int),
        decreases line@.len() - from,
    {
        if is_whitespace(line[from]) {
            from += 1;
        } else {
            let end: usize = word_end(line, from);
            words.push(slice_subrange(line, from, end));
            from = end;
        }
    }
    words
}

} // verus!
