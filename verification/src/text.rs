//! The mathematical model of a text: where a pattern occurs in it, and how it
//! falls into lines and words.

use vstd::prelude::*;
use crate::chars::{is_space, folded};

verus! {

/// How the query and the text are compared.
#[derive(Clone, Copy, Debug, PartialEq, Eq, Structural)]
pub enum MatchMode {
    /// Characters must agree exactly.
    CaseSensitive,
    /// ASCII letters agree whatever their case.
    CaseInsensitive,
}

/// `needle` stands in `hay` at position `at`.
pub open spec fn occurs_at(hay: Seq<char>, needle: Seq<char>, at: int) -> bool {
    &&& 0 <= at
    &&& at + needle.len() <= hay.len()
    &&& hay.subrange(at, at + needle.len()) == needle
}

/// `needle` is a contiguous part of `hay`. The empty text is a part of every
/// text.
pub open spec fn occurs_in(hay: Seq<char>, needle: Seq<char>) -> bool {
    exists|at: int| occurs_at(hay, needle, at)
}

/// What is compared in place of `s` under `mode`.
pub open spec fn key(s: Seq<char>, mode: MatchMode) -> Seq<char> {
    match mode {
        MatchMode::CaseSensitive => s,
        MatchMode::CaseInsensitive => folded(s),
    }
}

/// `text` contains `query` under `mode`.
pub open spec fn contains_query(text: Seq<char>, query: Seq<char>, mode: MatchMode) -> bool {
    occurs_in(key(text, mode), key(query, mode))
}

/// The number of characters from position `from` up to the next line feed or
/// the end of the text.
pub open spec fn line_len(text: Seq<char>, from: int) -> nat
    decreases text.len() - from,
{
    if 0 <= from < text.len() && text[from] != '\n' {
        1 + line_len(text, from + 1)
    } else {
        0
    }
}

/// A line stops at or before the end of the text.
pub proof fn lemma_line_len_bound(text: Seq<char>, from: int)
    requires
        0 <= from <= text.len(),
    ensures
        from + line_len(text, from) <= text.len(),
    decreases text.len() - from,
{
    if from < text.len() && text[from] != '\n' {
        lemma_line_len_bound(text, from + 1);
    }
}

/// The line that starts at `from` and is ended at `end`, without its
/// terminator: a carriage return directly before the ending line feed belongs
/// to the terminator.
pub open spec fn line_body(text: Seq<char>, from: int, end: int) -> Seq<char> {
    if from < end < text.len() && text[end - 1] == '\r' {
        text.subrange(from, end - 1)
    } else {
        text.subrange(from, end)
    }
}

/// The lines of `text` that start at or after position `from`, which is the
/// start of a line.
pub open spec fn lines_from(text: Seq<char>, from: int) -> Seq<Seq<char>>
    decreases text.len() + 1 - from,
    via lines_from_decreases
{
    if 0 <= from < text.len() {
        let end = from + line_len(text, from);
        seq![line_body(text, from, end)] + lines_from(text, end + 1)
    } else {
        Seq::empty()
    }
}

#[via_fn]
proof fn lines_from_decreases(text: Seq<char>, from: int) {
    if 0 <= from < text.len() {
        lemma_line_len_bound(text, from);
    }
}

/// The lines of `text`, in order. A line ends at a line feed, or at a carriage
/// return followed by a line feed; the last line may lack its terminator, and
/// a text that ends with a terminator has no empty line after it.
pub open spec fn lines_of(text: Seq<char>) -> Seq<Seq<char>> {
    lines_from(text, 0)
}

/// The number of characters from position `from` up to the next white space
/// or the end of the line.
pub open spec fn word_len(line: Seq<char>, from: int) -> nat
    decreases line.len() - from,
{
    if 0 <= from < line.len() && !is_space(line[from]) {
        1 + word_len(line, from + 1)
    } else {
        0
    }
}

/// A word stops at or before the end of the line.
pub proof fn lemma_word_len_bound(line: Seq<char>, from: int)
    requires
        0 <= from <= line.len(),
    ensures
        from + word_len(line, from) <= line.len(),
    decreases line.len() - from,
{
    if from < line.len() && !is_space(line[from]) {
        lemma_word_len_bound(line, from + 1);
    }
}

/// The words of `line` that start at or after position `from`, which is not
/// inside a word.
pub open spec fn words_from(line: Seq<char>, from: int) -> Seq<Seq<char>>
    decreases line.len() - from,
    via words_from_decreases
{
    if 0 <= from < line.len() {
        if is_space(line[from]) {
            words_from(line, from + 1)
        } else {
            let n = word_len(line, from);
            seq![line.subrange(from, from + n)] + words_from(line, from + n)
        }
    } else {
        Seq::empty()
    }
}

#[via_fn]
proof fn words_from_decreases(line: Seq<char>, from: int) {
    if 0 <= from < line.len() {
        lemma_word_len_bound(line, from);
    }
}

/// The words of `line`, in order: its maximal runs of characters that are not
/// white space.
pub open spec fn words_of(line: Seq<char>) -> Seq<Seq<char>> {
    words_from(line, 0)
}

/// A part of a part is a part.
pub proof fn lemma_occurs_transitive(inner: Seq<char>, middle: Seq<char>, outer: Seq<char>)
    requires
        occurs_in(middle, inner),
        occurs_in(outer, middle),
    ensures
        occurs_in(outer, inner),
{
    let a = choose|at: int| occurs_at(middle, inner, at);
    let b = choose|at: int| occurs_at(outer, middle, at);
    assert(outer.subrange(b + a, b + a + inner.len()) =~= outer.subrange(
        b,
        b + middle.len(),
    ).subrange(a, a + inner.len()));
    assert(occurs_at(outer, inner, b + a));
}

/// What occurs in a text still occurs in it when both are compared under a
/// mode: a match that respects case is also a match that ignores it.
pub proof fn lemma_key_keeps_occurrence(hay: Seq<char>, needle: Seq<char>, mode: MatchMode)
    requires
        occurs_in(hay, needle),
    ensures
        contains_query(hay, needle, mode),
{
    let at = choose|at: int| occurs_at(hay, needle, at);
    assert(key(hay, mode).subrange(at, at + needle.len()) =~= key(needle, mode));
    assert(occurs_at(key(hay, mode), key(needle, mode), at));
}

/// A query that a part of a text contains is contained in the text.
pub proof fn lemma_part_contains(
    whole: Seq<char>,
    part: Seq<char>,
    query: Seq<char>,
    mode: MatchMode,
)
    requires
        occurs_in(whole, part),
        contains_query(part, query, mode),
    ensures
        contains_query(whole, query, mode),
{
    lemma_key_keeps_occurrence(whole, part, mode);
    lemma_occurs_transitive(key(query, mode), key(part, mode), key(whole, mode));
}

/// Every line is a part of the text.
pub proof fn lemma_line_is_part_of_text(text: Seq<char>, from: int, i: int)
    requires
        0 <= i < lines_from(text, from).len(),
    ensures
        occurs_in(text, lines_from(text, from)[i]),
    decreases text.len() + 1 - from,
{
    let end = from + line_len(text, from);
    lemma_line_len_bound(text, from);
    if i == 0 {
        let body = line_body(text, from, end);
        assert(occurs_at(text, body, from));
    } else {
        lemma_line_is_part_of_text(text, end + 1, i - 1);
    }
}

/// No line feed stands between the start of a line and its end.
pub proof fn lemma_line_has_no_line_feed(text: Seq<char>, from: int, end: int)
    requires
        0 <= from <= text.len(),
        end == from + line_len(text, from),
    ensures
        forall|k: int| from <= k < end ==> text[k] != '\n',
        end == text.len() || text[end] == '\n',
    decreases text.len() - from,
{
    if from < text.len() && text[from] != '\n' {
        lemma_line_has_no_line_feed(text, from + 1, end);
    }
}

/// No white space stands between the start of a word and its end, and the
/// word ends at white space or at the end of the line.
pub proof fn lemma_word_has_no_space(line: Seq<char>, from: int, end: int)
    requires
        0 <= from <= line.len(),
        end == from + word_len(line, from),
    ensures
        forall|k: int| from <= k < end ==> !is_space(line[k]),
        end == line.len() || is_space(line[end]),
    decreases line.len() - from,
{
    if from < line.len() && !is_space(line[from]) {
        lemma_word_has_no_space(line, from + 1, end);
    }
}

/// Every word is a part of the line.
pub proof fn lemma_word_is_part_of_line(line: Seq<char>, from: int, i: int)
    requires
        0 <= i < words_from(line, from).len(),
    ensures
        occurs_in(line, words_from(line, from)[i]),
    decreases line.len() - from,
{
    if is_space(line[from]) {
        lemma_word_is_part_of_line(line, from + 1, i);
    } else {
        let end = from + word_len(line, from);
        lemma_word_len_bound(line, from);
        if i == 0 {
            let word = line.subrange(from, end);
            assert(occurs_at(line, word, from));
        } else {
            lemma_word_is_part_of_line(line, end, i - 1);
        }
    }
}

/// The test for a character that belongs to a word.
pub open spec fn in_word() -> spec_fn(char) -> bool {
    |c: char| !is_space(c)
}

/// The words of a line, put together, are the line without its white space:
/// no character of a word is lost, none is added, and the order is kept.
pub proof fn lemma_words_hold_all_but_white_space(line: Seq<char>)
    ensures
        words_of(line).flatten() == line.filter(in_word()),
{
    lemma_words_from_hold_the_rest(line, 0);
    assert(line.skip(0) =~= line);
}

proof fn lemma_words_from_hold_the_rest(line: Seq<char>, from: int)
    requires
        0 <= from <= line.len(),
    ensures
        words_from(line, from).flatten() == line.skip(from).filter(in_word()),
    decreases line.len() - from,
{
    let rest = line.skip(from);
    if from == line.len() {
        rest.lemma_filter_len(in_word());
    } else if is_space(line[from]) {
        lemma_words_from_hold_the_rest(line, from + 1);
        let head = seq![line[from]];
        assert(rest =~= head + line.skip(from + 1));
        Seq::filter_distributes_over_add(head, line.skip(from + 1), in_word());
        Seq::<char>::empty().lemma_filter_push(line[from], in_word());
        Seq::<char>::empty().lemma_filter_len(in_word());
    } else {
        let end = from + word_len(line, from);
        lemma_word_len_bound(line, from);
        lemma_word_has_no_space(line, from, end);
        lemma_words_from_hold_the_rest(line, end);
        let word = line.subrange(from, end);
        assert(rest =~= word + line.skip(end));
        Seq::filter_distributes_over_add(word, line.skip(end), in_word());
        lemma_all_kept(word, in_word());
        let later = words_from(line, end);
        assert((seq![word] + later).drop_first() =~= later);
    }
}

/// A filter that every item passes keeps the sequence as it is.
pub proof fn lemma_all_kept<A>(items: Seq<A>, pred: spec_fn(A) -> bool)
    requires
        forall|k: int| 0 <= k < items.len() ==> pred(#[trigger] items[k]),
    ensures
        items.filter(pred) == items,
    decreases items.len(),
{
    if items.len() == 0 {
        items.lemma_filter_len(pred);
    } else {
        lemma_all_kept(items.drop_last(), pred);
        items.drop_last().lemma_filter_push(items.last(), pred);
        assert(items.drop_last().push(items.last()) =~= items);
    }
}

/// `word` is the run of characters of `line` from `from` up to `to`: it is
/// not empty, holds no white space, and white space or an end of the line
/// stands on either side of it.
pub open spec fn is_word_at(line: Seq<char>, word: Seq<char>, from: int, to: int) -> bool {
    &&& 0 <= from < to <= line.len()
    &&& line.subrange(from, to) == word
    &&& forall|k: int| from <= k < to ==> !is_space(#[trigger] line[k])
    &&& from == 0 || is_space(line[from - 1])
    &&& to == line.len() || is_space(line[to])
}

/// Every word of a line is a maximal run of characters that are not white
/// space.
pub proof fn lemma_words_are_maximal_runs(line: Seq<char>, w: int)
    requires
        0 <= w < words_of(line).len(),
    ensures
        exists|from: int, to: int| is_word_at(line, words_of(line)[w], from, to),
{
    lemma_words_from_are_maximal_runs(line, 0, w);
}

proof fn lemma_words_from_are_maximal_runs(line: Seq<char>, start: int, w: int)
    requires
        0 <= w < words_from(line, start).len(),
        start == 0 || is_space(line[start - 1]) || is_space(line[start]),
    ensures
        exists|from: int, to: int| is_word_at(line, words_from(line, start)[w], from, to),
    decreases line.len() - start,
{
    let word = words_from(line, start)[w];
    if is_space(line[start]) {
        lemma_words_from_are_maximal_runs(line, start + 1, w);
    } else {
        let end = start + word_len(line, start);
        lemma_word_len_bound(line, start);
        lemma_word_has_no_space(line, start, end);
        if w == 0 {
            assert(is_word_at(line, word, start, end));
        } else {
            lemma_words_from_are_maximal_runs(line, end, w - 1);
        }
    }
}

/// `line` is the line of `text` from `from` up to `to`: no line feed stands
/// in it, a line feed or the start of the text stands before it, and a line
/// feed or the end of the text after it; a carriage return directly before
/// that line feed is not part of the line.
pub open spec fn is_line_at(text: Seq<char>, line: Seq<char>, from: int, to: int) -> bool {
    &&& 0 <= from <= to <= text.len()
    &&& from < text.len()
    &&& line_body(text, from, to) == line
    &&& forall|k: int| from <= k < to ==> #[trigger] text[k] != '\n'
    &&& from == 0 || text[from - 1] == '\n'
    &&& to == text.len() || text[to] == '\n'
}

/// Every line of a text runs from the start of the text, or from behind a
/// line feed, up to the next line feed or the end of the text.
pub proof fn lemma_lines_run_between_line_feeds(text: Seq<char>, n: int)
    requires
        0 <= n < lines_of(text).len(),
    ensures
        exists|from: int, to: int| is_line_at(text, lines_of(text)[n], from, to),
{
    lemma_lines_from_run_between_line_feeds(text, 0, n);
}

proof fn lemma_lines_from_run_between_line_feeds(text: Seq<char>, start: int, n: int)
    requires
        0 <= n < lines_from(text, start).len(),
        start == 0 || text[start - 1] == '\n',
    ensures
        exists|from: int, to: int| is_line_at(text, lines_from(text, start)[n], from, to),
    decreases text.len() + 1 - start,
{
    let end = start + line_len(text, start);
    lemma_line_len_bound(text, start);
    lemma_line_has_no_line_feed(text, start, end);
    let line = lines_from(text, start)[n];
    if n == 0 {
        assert(is_line_at(text, line, start, end));
    } else {
        assert(lines_from(text, end + 1).len() > 0);
        lemma_lines_from_run_between_line_feeds(text, end + 1, n - 1);
    }
}

/// Two texts put one after the other with a line feed between them.
pub open spec fn joined(first: Seq<char>, second: Seq<char>) -> Seq<char> {
    first + seq!['\n'] + second
}

/// The lines of two texts joined by a line feed are the lines of the first
/// followed by those of the second, where the first text ends in a line of
/// its own: it is not empty and ends neither in a line feed nor in a carriage
/// return.
pub proof fn lemma_lines_of_joined_texts(first: Seq<char>, second: Seq<char>)
    requires
        first.len() > 0,
        first.last() != '\n',
        first.last() != '\r',
    ensures
        lines_of(joined(first, second)) == lines_of(first) + lines_of(second),
{
    lemma_lines_before_the_joint(first, second, 0);
}

proof fn lemma_line_len_before_the_joint(first: Seq<char>, second: Seq<char>, from: int)
    requires
        0 <= from <= first.len(),
    ensures
        line_len(joined(first, second), from) == line_len(first, from),
    decreases first.len() - from,
{
    if from < first.len() && first[from] != '\n' {
        lemma_line_len_before_the_joint(first, second, from + 1);
    }
}

proof fn lemma_line_len_behind(before: Seq<char>, text: Seq<char>, from: int)
    requires
        0 <= from,
    ensures
        line_len(before + text, before.len() + from) == line_len(text, from),
    decreases text.len() - from,
{
    if from < text.len() && text[from] != '\n' {
        lemma_line_len_behind(before, text, from + 1);
    }
}

proof fn lemma_lines_behind(before: Seq<char>, text: Seq<char>, from: int)
    requires
        0 <= from,
    ensures
        lines_from(before + text, before.len() + from) == lines_from(text, from),
    decreases text.len() + 1 - from,
{
    if from < text.len() {
        let whole = before + text;
        let end = from + line_len(text, from);
        lemma_line_len_behind(before, text, from);
        lemma_line_len_bound(text, from);
        lemma_lines_behind(before, text, end + 1);
        assert(line_body(whole, before.len() + from, before.len() + end) =~= line_body(
            text,
            from,
            end,
        ));
    }
}

proof fn lemma_lines_before_the_joint(first: Seq<char>, second: Seq<char>, from: int)
    requires
        0 <= from < first.len(),
        first.last() != '\n',
        first.last() != '\r',
    ensures
        lines_from(joined(first, second), from) == lines_from(first, from) + lines_of(second),
    decreases first.len() - from,
{
    let whole = joined(first, second);
    let end = from + line_len(first, from);
    lemma_line_len_before_the_joint(first, second, from);
    lemma_line_len_bound(first, from);
    lemma_line_has_no_line_feed(first, from, end);
    assert(line_body(whole, from, end) =~= line_body(first, from, end));
    if end < first.len() {
        lemma_lines_before_the_joint(first, second, end + 1);
    } else {
        lemma_lines_behind(first + seq!['\n'], second, 0);
        assert(lines_from(first, end + 1) =~= Seq::<Seq<char>>::empty());
    }
}

} // verus!
