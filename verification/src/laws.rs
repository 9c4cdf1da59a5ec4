//! What holds of every search, proved from the definitions.

use vstd::prelude::*;
use crate::chars::{folded, lower};
use crate::highlight::{Markers, pieces, rendered, shown};
use crate::search::{keeps, line_result, matching_lines, rendered_all, search_result};
use crate::text::{
    MatchMode, contains_query, joined, key, lemma_all_kept, lemma_key_keeps_occurrence,
    lemma_lines_of_joined_texts,
    lemma_line_is_part_of_text, lemma_occurs_transitive, lemma_part_contains,
    lemma_word_is_part_of_line, lines_of, occurs_at, occurs_in, words_of,
};

verus! {

/// The number of lines before line `n` of `contents` that contain `query`:
/// the place in the result of the entry for line `n`, where that line is kept.
pub open spec fn place_of(query: Seq<char>, contents: Seq<char>, mode: MatchMode, n: int) -> nat {
    lines_of(contents).take(n).filter(keeps(query, mode)).len()
}

/// Where a word of a line contains the query, the line is kept: the result
/// has an entry for it, which is the line's words one after the other, each
/// followed by one space; in it that word stands between the markers, and
/// every word that does not contain the query stands as it is.
pub proof fn lemma_matching_word_is_highlighted(
    query: Seq<char>,
    contents: Seq<char>,
    mode: MatchMode,
    marks: Markers,
    n: int,
    w: int,
)
    requires
        0 <= n < lines_of(contents).len(),
        0 <= w < words_of(lines_of(contents)[n]).len(),
        contains_query(words_of(lines_of(contents)[n])[w], query, mode),
    ensures
        ({
            let line = lines_of(contents)[n];
            let words = words_of(line);
            let found = search_result(query, contents, mode, marks);
            let place = place_of(query, contents, mode, n) as int;
            let parts = pieces(query, words, mode, marks);
            &&& contains_query(line, query, mode)
            &&& place < found.len()
            &&& found[place] == parts.flatten()
            &&& parts.len() == words.len()
            &&& parts[w] == marks.prefix + words[w] + marks.suffix + seq![' ']
            &&& forall|v: int|
                0 <= v < words.len() && !contains_query(words[v], query, mode)
                    ==> #[trigger] parts[v] == words[v] + seq![' ']
        }),
{
    let line = lines_of(contents)[n];
    lemma_word_is_part_of_line(line, 0, w);
    lemma_part_contains(line, words_of(line)[w], query, mode);
    lemma_kept_line_has_its_place(query, contents, mode, marks, n);
}

/// Every line is written with one space at its end, whether it has words or
/// not: what is returned for a kept line is never empty.
pub proof fn lemma_entry_ends_in_a_space(
    query: Seq<char>,
    line: Seq<char>,
    mode: MatchMode,
    marks: Markers,
)
    ensures
        rendered(query, line, mode, marks).len() > 0,
        rendered(query, line, mode, marks).last() == ' ',
        words_of(line).len() == 0 ==> rendered(query, line, mode, marks) == seq![' '],
{
    let parts = pieces(query, words_of(line), mode, marks);
    if parts.len() > 0 {
        assert(parts.drop_last().push(parts.last()) =~= parts);
        parts.drop_last().lemma_flatten_push(parts.last());
    }
}

/// Every entry of a result ends in one space.
pub proof fn lemma_entries_end_in_a_space(
    query: Seq<char>,
    contents: Seq<char>,
    mode: MatchMode,
    marks: Markers,
    r: int,
)
    requires
        0 <= r < search_result(query, contents, mode, marks).len(),
    ensures
        search_result(query, contents, mode, marks)[r].len() > 0,
        search_result(query, contents, mode, marks)[r].last() == ' ',
{
    lemma_entry_ends_in_a_space(query, matching_lines(query, contents, mode)[r], mode, marks);
}

/// What is returned for one line, as a function of the line.
pub open spec fn line_results(query: Seq<char>, mode: MatchMode, marks: Markers) -> spec_fn(
    Seq<char>,
) -> Option<Seq<char>> {
    |line: Seq<char>| line_result(query, line, mode, marks)
}

/// A search returns what is returned for each of the lines, in the order of
/// the lines, without the lines for which nothing is returned.
pub proof fn lemma_result_is_line_results(
    query: Seq<char>,
    contents: Seq<char>,
    mode: MatchMode,
    marks: Markers,
)
    ensures
        search_result(query, contents, mode, marks) == lines_of(contents).filter_map(
            line_results(query, mode, marks),
        ),
{
    lemma_kept_are_line_results(query, lines_of(contents), mode, marks);
}

proof fn lemma_kept_are_line_results(
    query: Seq<char>,
    lines: Seq<Seq<char>>,
    mode: MatchMode,
    marks: Markers,
)
    ensures
        rendered_all(query, lines.filter(keeps(query, mode)), mode, marks) == lines.filter_map(
            line_results(query, mode, marks),
        ),
    decreases lines.len(),
{
    let pred = keeps(query, mode);
    if lines.len() == 0 {
        lines.lemma_filter_len(pred);
    } else {
        let rest = lines.drop_last();
        lemma_kept_are_line_results(query, rest, mode, marks);
        rest.lemma_filter_push(lines.last(), pred);
        assert(rest.push(lines.last()) =~= lines);
    }
}

/// The entry for a kept line stands at the place that is the number of kept
/// lines before it: the result lists the kept lines in the order in which
/// they stand in the text.
pub proof fn lemma_kept_line_has_its_place(
    query: Seq<char>,
    contents: Seq<char>,
    mode: MatchMode,
    marks: Markers,
    n: int,
)
    requires
        0 <= n < lines_of(contents).len(),
        contains_query(lines_of(contents)[n], query, mode),
    ensures
        place_of(query, contents, mode, n) < search_result(query, contents, mode, marks).len(),
        search_result(query, contents, mode, marks)[place_of(query, contents, mode, n) as int]
            == rendered(query, lines_of(contents)[n], mode, marks),
        matching_lines(query, contents, mode)[place_of(query, contents, mode, n) as int]
            == lines_of(contents)[n],
{
    let lines = lines_of(contents);
    let pred = keeps(query, mode);
    let before = lines.take(n);
    let upto = lines.take(n + 1);
    assert(upto =~= before.push(lines[n]));
    before.lemma_filter_push(lines[n], pred);
    upto.lemma_filter_monotone(lines, pred);
    let place = before.filter(pred).len() as int;
    assert(upto.filter(pred)[place] == lines[n]);
}

/// Places grow with the lines: a kept line has an earlier place than every
/// line after it.
pub proof fn lemma_order_is_kept(
    query: Seq<char>,
    contents: Seq<char>,
    mode: MatchMode,
    n: int,
    m: int,
)
    requires
        0 <= n < m < lines_of(contents).len(),
        contains_query(lines_of(contents)[n], query, mode),
    ensures
        place_of(query, contents, mode, n) < place_of(query, contents, mode, m),
{
    let lines = lines_of(contents);
    let pred = keeps(query, mode);
    let before = lines.take(n);
    let upto = lines.take(n + 1);
    assert(upto =~= before.push(lines[n]));
    before.lemma_filter_push(lines[n], pred);
    upto.lemma_filter_monotone(lines.take(m), pred);
}

/// The result has one entry for each kept line and no other: its length is
/// the number of lines that contain the query, and each entry is a line of
/// the text that contains the query, written out.
pub proof fn lemma_result_counts_kept_lines(
    query: Seq<char>,
    contents: Seq<char>,
    mode: MatchMode,
    marks: Markers,
)
    ensures
        search_result(query, contents, mode, marks).len() == place_of(
            query,
            contents,
            mode,
            lines_of(contents).len() as int,
        ),
        search_result(query, contents, mode, marks).len() <= lines_of(contents).len(),
        forall|r: int|
            0 <= r < search_result(query, contents, mode, marks).len() ==> contains_query(
                #[trigger] matching_lines(query, contents, mode)[r],
                query,
                mode,
            ) && lines_of(contents).contains(matching_lines(query, contents, mode)[r])
                && search_result(query, contents, mode, marks)[r] == rendered(
                query,
                matching_lines(query, contents, mode)[r],
                mode,
                marks,
            ),
{
    let lines = lines_of(contents);
    let pred = keeps(query, mode);
    assert(lines.take(lines.len() as int) =~= lines);
    lines.lemma_filter_len(pred);
    assert forall|r: int| 0 <= r < search_result(query, contents, mode, marks).len() implies {
        &&& contains_query(#[trigger] matching_lines(query, contents, mode)[r], query, mode)
        &&& lines.contains(matching_lines(query, contents, mode)[r])
    } by {
        lines.lemma_filter_pred(pred, r);
        lines.lemma_filter_contains_rev(pred, lines.filter(pred)[r]);
    }
}

/// A line that contains the query only in another case is left out by the
/// case-sensitive search and kept by the case-insensitive one.
pub proof fn lemma_case_decides(
    query: Seq<char>,
    contents: Seq<char>,
    marks: Markers,
    n: int,
)
    requires
        0 <= n < lines_of(contents).len(),
        !occurs_in(lines_of(contents)[n], query),
        occurs_in(folded(lines_of(contents)[n]), folded(query)),
    ensures
        !matching_lines(query, contents, MatchMode::CaseSensitive).contains(lines_of(contents)[n]),
        matching_lines(query, contents, MatchMode::CaseInsensitive).contains(
            lines_of(contents)[n],
        ),
        search_result(query, contents, MatchMode::CaseInsensitive, marks).contains(
            rendered(query, lines_of(contents)[n], MatchMode::CaseInsensitive, marks),
        ),
{
    let lines = lines_of(contents);
    let line = lines[n];
    let exact = keeps(query, MatchMode::CaseSensitive);
    if lines.filter(exact).contains(line) {
        let r = choose|r: int| 0 <= r < lines.filter(exact).len() && lines.filter(exact)[r] == line;
        lines.lemma_filter_pred(exact, r);
    }
    lemma_kept_line_has_its_place(query, contents, MatchMode::CaseInsensitive, marks, n);
}

/// Whatever the case-sensitive search keeps, the case-insensitive search
/// keeps too.
pub proof fn lemma_ignoring_case_keeps_more(query: Seq<char>, text: Seq<char>)
    requires
        contains_query(text, query, MatchMode::CaseSensitive),
    ensures
        contains_query(text, query, MatchMode::CaseInsensitive),
{
    lemma_key_keeps_occurrence(text, query, MatchMode::CaseInsensitive);
}

/// Where the query stands nowhere in the text, the result is empty.
pub proof fn lemma_absent_query_finds_nothing(
    query: Seq<char>,
    contents: Seq<char>,
    mode: MatchMode,
    marks: Markers,
)
    requires
        !contains_query(contents, query, mode),
    ensures
        search_result(query, contents, mode, marks) == Seq::<Seq<char>>::empty(),
{
    let lines = lines_of(contents);
    let pred = keeps(query, mode);
    assert forall|n: int| 0 <= n < lines.len() implies !pred(#[trigger] lines[n]) by {
        lemma_line_is_part_of_text(contents, 0, n);
        if contains_query(lines[n], query, mode) {
            lemma_part_contains(contents, lines[n], query, mode);
        }
    }
    lemma_no_kept_line_no_entry(query, contents, mode, marks);
}

/// The result is empty exactly where no line contains the query.
pub proof fn lemma_no_kept_line_no_entry(
    query: Seq<char>,
    contents: Seq<char>,
    mode: MatchMode,
    marks: Markers,
)
    ensures
        search_result(query, contents, mode, marks) == Seq::<Seq<char>>::empty() <==> forall|
            n: int,
        |
            0 <= n < lines_of(contents).len() ==> !contains_query(
                #[trigger] lines_of(contents)[n],
                query,
                mode,
            ),
{
    let lines = lines_of(contents);
    let pred = keeps(query, mode);
    let found = search_result(query, contents, mode, marks);
    if forall|n: int| 0 <= n < lines.len() ==> !contains_query(#[trigger] lines[n], query, mode) {
        if lines.filter(pred).len() > 0 {
            lines.lemma_filter_pred(pred, 0);
            lines.lemma_filter_contains_rev(pred, lines.filter(pred)[0]);
        }
        assert(found =~= Seq::<Seq<char>>::empty());
    } else {
        let n = choose|n: int| 0 <= n < lines.len() && contains_query(lines[n], query, mode);
        lemma_kept_line_has_its_place(query, contents, mode, marks, n);
    }
}

/// An empty text has no lines, so that every search of it is empty.
pub proof fn lemma_empty_contents(query: Seq<char>, mode: MatchMode, marks: Markers)
    ensures
        lines_of(Seq::<char>::empty()) == Seq::<Seq<char>>::empty(),
        search_result(query, Seq::<char>::empty(), mode, marks) == Seq::<Seq<char>>::empty(),
{
    lemma_no_kept_line_no_entry(query, Seq::<char>::empty(), mode, marks);
}

/// The empty query is contained in every text: every line is kept, and every
/// word of every line stands between the markers.
pub proof fn lemma_empty_query(contents: Seq<char>, mode: MatchMode, marks: Markers)
    ensures
        matching_lines(Seq::<char>::empty(), contents, mode) == lines_of(contents),
        search_result(Seq::<char>::empty(), contents, mode, marks).len() == lines_of(
            contents,
        ).len(),
        forall|word: Seq<char>| #[trigger]
            shown(Seq::<char>::empty(), word, mode, marks) == marks.prefix + word + marks.suffix
                + seq![' '],
{
    let query = Seq::<char>::empty();
    let lines = lines_of(contents);
    let pred = keeps(query, mode);
    assert forall|n: int| 0 <= n < lines.len() implies pred(#[trigger] lines[n]) by {
        lemma_empty_occurs(lines[n], mode);
    }
    lemma_all_kept(lines, pred);
    assert forall|word: Seq<char>| #[trigger]
        shown(query, word, mode, marks) == marks.prefix + word + marks.suffix + seq![' '] by {
        lemma_empty_occurs(word, mode);
    }
}

/// The empty text occurs in every text, under either mode.
pub proof fn lemma_empty_occurs(text: Seq<char>, mode: MatchMode)
    ensures
        contains_query(text, Seq::<char>::empty(), mode),
{
    let nothing = key(Seq::<char>::empty(), mode);
    assert(key(text, mode).subrange(0, 0) =~= nothing);
    assert(occurs_at(key(text, mode), nothing, 0));
}

/// Queries that differ in the case of their letters only give the same result
/// where case is ignored.
pub proof fn lemma_case_of_query_is_ignored(
    first: Seq<char>,
    second: Seq<char>,
    contents: Seq<char>,
    marks: Markers,
)
    requires
        folded(first) == folded(second),
    ensures
        search_result(first, contents, MatchMode::CaseInsensitive, marks) == search_result(
            second,
            contents,
            MatchMode::CaseInsensitive,
            marks,
        ),
{
    let mode = MatchMode::CaseInsensitive;
    assert(keeps(first, mode) =~= keeps(second, mode));
    let kept = matching_lines(first, contents, mode);
    assert forall|r: int| 0 <= r < kept.len() implies rendered(first, #[trigger] kept[r], mode, marks)
        == rendered(second, kept[r], mode, marks) by {
        let words = words_of(kept[r]);
        assert(pieces(first, words, mode, marks) =~= pieces(second, words, mode, marks));
    }
}

/// No ASCII capital stands in `text`.
pub open spec fn has_no_capital(text: Seq<char>) -> bool {
    forall|k: int| 0 <= k < text.len() ==> lower(#[trigger] text[k]) == text[k]
}

/// Where neither the query nor the text holds an ASCII capital, both modes
/// give the same result.
pub proof fn lemma_modes_agree_without_capitals(
    query: Seq<char>,
    contents: Seq<char>,
    marks: Markers,
)
    requires
        has_no_capital(query),
        has_no_capital(contents),
    ensures
        search_result(query, contents, MatchMode::CaseSensitive, marks) == search_result(
            query,
            contents,
            MatchMode::CaseInsensitive,
            marks,
        ),
{
    let exact = MatchMode::CaseSensitive;
    let loose = MatchMode::CaseInsensitive;
    let lines = lines_of(contents);
    assert forall|n: int| 0 <= n < lines.len() implies keeps(query, exact)(#[trigger] lines[n])
        == keeps(query, loose)(lines[n]) by {
        lemma_line_is_part_of_text(contents, 0, n);
        lemma_part_agrees_without_capitals(query, contents, lines[n]);
    }
    lemma_filters_agree(lines, keeps(query, exact), keeps(query, loose));
    let kept = matching_lines(query, contents, exact);
    assert forall|r: int| 0 <= r < kept.len() implies rendered(query, #[trigger] kept[r], exact, marks)
        == rendered(query, kept[r], loose, marks) by {
        lines.lemma_filter_contains_rev(keeps(query, exact), kept[r]);
        let n = choose|n: int| 0 <= n < lines.len() && lines[n] == kept[r];
        lemma_line_is_part_of_text(contents, 0, n);
        let words = words_of(kept[r]);
        assert forall|w: int| 0 <= w < words.len() implies contains_query(
            #[trigger] words[w],
            query,
            exact,
        ) == contains_query(words[w], query, loose) by {
            lemma_word_is_part_of_line(kept[r], 0, w);
            lemma_occurs_transitive(words[w], kept[r], contents);
            lemma_part_agrees_without_capitals(query, contents, words[w]);
        }
        assert(pieces(query, words, exact, marks) =~= pieces(query, words, loose, marks));
    }
}

proof fn lemma_part_agrees_without_capitals(query: Seq<char>, whole: Seq<char>, part: Seq<char>)
    requires
        has_no_capital(query),
        has_no_capital(whole),
        occurs_in(whole, part),
    ensures
        contains_query(part, query, MatchMode::CaseSensitive) == contains_query(
            part,
            query,
            MatchMode::CaseInsensitive,
        ),
{
    let at = choose|at: int| occurs_at(whole, part, at);
    assert forall|k: int| 0 <= k < part.len() implies lower(#[trigger] part[k]) == part[k] by {
        assert(part[k] == whole[at + k]);
    }
    assert(folded(part) =~= part);
    assert(folded(query) =~= query);
}

proof fn lemma_filters_agree<A>(items: Seq<A>, first: spec_fn(A) -> bool, second: spec_fn(A) -> bool)
    requires
        forall|k: int| 0 <= k < items.len() ==> first(#[trigger] items[k]) == second(items[k]),
    ensures
        items.filter(first) == items.filter(second),
    decreases items.len(),
{
    if items.len() == 0 {
        items.lemma_filter_len(first);
        items.lemma_filter_len(second);
    } else {
        let rest = items.drop_last();
        lemma_filters_agree(rest, first, second);
        rest.lemma_filter_push(items.last(), first);
        rest.lemma_filter_push(items.last(), second);
        assert(rest.push(items.last()) =~= items);
    }
}

/// A search of two texts joined by a line feed returns what the search of the
/// first returns, followed by what the search of the second returns, where
/// the first text ends in a line of its own.
pub proof fn lemma_search_of_joined_texts(
    query: Seq<char>,
    first: Seq<char>,
    second: Seq<char>,
    mode: MatchMode,
    marks: Markers,
)
    requires
        first.len() > 0,
        first.last() != '\n',
        first.last() != '\r',
    ensures
        search_result(query, joined(first, second), mode, marks) == search_result(
            query,
            first,
            mode,
            marks,
        ) + search_result(query, second, mode, marks),
{
    lemma_lines_of_joined_texts(first, second);
    Seq::filter_distributes_over_add(lines_of(first), lines_of(second), keeps(query, mode));
}

} // verus!
