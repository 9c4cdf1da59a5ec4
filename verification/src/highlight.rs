//! Highlight markers and the rendering of a line word by word.

use vstd::prelude::*;
use vstd::string::StringExecFns;
use crate::scan::{contains, split_words, views};
use crate::text::{MatchMode, contains_query, words_of};

verus! {

/// The markers that are written before and after a highlighted word.
#[derive(Debug, PartialEq, Eq)]
pub struct Highlight {
    /// Written directly before the word.
    pub prefix: String,
    /// Written directly after the word.
    pub suffix: String,
}

/// The two markers as texts.
pub struct Markers {
    pub prefix: Seq<char>,
    pub suffix: Seq<char>,
}

impl View for Highlight {
    type V = Markers;

    open spec fn view(&self) -> Markers {
        Markers { prefix: self.prefix@, suffix: self.suffix@ }
    }
}

/// The control sequence that switches a terminal to bold green.
pub const BOLD_GREEN: &'static str = "\x1b[38;2;43;255;0;1m";

/// The control sequence that switches a terminal back to its default style.
pub const RESET: &'static str = "\x1b[0m";

/// The markers for a terminal: the first switches to bold green, the second
/// back to the default style.
pub open spec fn terminal_markers() -> Markers {
    Markers { prefix: BOLD_GREEN@, suffix: RESET@ }
}

impl Highlight {
    /// Markers of the caller's choice.
    pub fn new(prefix: &str, suffix: &str) -> (style: Highlight)
        ensures
            style@ == (Markers { prefix: prefix@, suffix: suffix@ }),
    {
        Highlight { prefix: String::from_str(prefix), suffix: String::from_str(suffix) }
    }

    /// The markers for a terminal: matched words appear in bold green.
    pub fn terminal() -> (style: Highlight)
        ensures
            style@ == terminal_markers(),
    {
        Highlight::new(BOLD_GREEN, RESET)
    }
}

/// How one word is written: between the markers where it contains the query,
/// as it is otherwise, and with one space after it in both cases.
pub open spec fn shown(query: Seq<char>, word: Seq<char>, mode: MatchMode, marks: Markers) -> Seq<
    char,
> {
    if contains_query(word, query, mode) {
        marks.prefix + word + marks.suffix + seq![' ']
    } else {
        word + seq![' ']
    }
}

/// How each of `words` is written, in order.
pub open spec fn pieces(
    query: Seq<char>,
    words: Seq<Seq<char>>,
    mode: MatchMode,
    marks: Markers,
) -> Seq<Seq<char>> {
    Seq::new(words.len(), |i: int| shown(query, words[i], mode, marks))
}

/// How `line` is written: its words, each as `shown` gives it, one after the
/// other, so that single spaces stand between the words and one space ends
/// the line. A line without words is written as that one space alone.
pub open spec fn rendered(query: Seq<char>, line: Seq<char>, mode: MatchMode, marks: Markers) -> Seq<
    char,
> {
    if words_of(line).len() == 0 {
        seq![' ']
    } else {
        pieces(query, words_of(line), mode, marks).flatten()
    }
}

/// Appends the characters of `part` to `out`.
pub fn push_chars(out: &mut String, part: &[char])
    ensures
        final(out)@ == old(out)@ + part@,
{
    let mut i: usize = 0;
    while i < part.len()
        invariant
            i <= part.len(),
            out@ == old(out)@ + part@.take(i as int),
        decreases part.len() - i,
    {
        out.push(part[i]);
        i += 1;
    }
}

/// Writes `line` out word by word, each word followed by one space and the
/// words that contain `query` between the markers of `style`. A line without
/// words is written as one space.
pub fn render(query: &[char], line: &[char], mode: MatchMode, style: &Highlight) -> (out: String)
    ensures
        out@ == rendered(query@, line@, mode, style@),
{
    let words = split_words(line);
    let mut out = String::new();
    if words.len() == 0 {
        out.push(' ');
        return out;
    }
    let mut i: usize = 0;
    while i < words.len()
        invariant
            i <= words.len(),
            views(words@) == words_of(line@),
            out@ == pieces(query@, views(words@).take(i as int), mode, style@).flatten(),
        decreases words.len() - i,
    {
        let word = words[i];
        let ghost before = pieces(query@, views(words@).take(i as int), mode, style@);
        if contains(word, query, mode) {
            out.append(style.prefix.as_str());
            push_chars(&mut out, word);
            out.append(style.suffix.as_str());
        } else {
            push_chars(&mut out, word);
        }
        out.push(' ');
        proof {
            let piece = shown(query@, word@, mode, style@);
            assert(pieces(query@, views(words@).take(i + 1), mode, style@) =~= before.push(piece));
            before.lemma_flatten_push(piece);
        }
        i += 1;
    }
    assert(views(words@).take(words.len() as int) =~= views(words@));
    out
}

} // verus!
