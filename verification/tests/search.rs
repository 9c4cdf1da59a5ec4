use grep_rust::highlight::{BOLD_GREEN, RESET};
use grep_rust::{match_line, search, search_case_insensitive, search_with, Highlight, MatchMode};

const ON: &str = "\u{1b}[38;2;43;255;0;1m";
const OFF: &str = "\u{1b}[0m";

fn marked(word: &str) -> String {
    format!("{}{}{} ", ON, word, OFF)
}

#[test]
fn case_sensitive() {
    let query = "duct";
    let contents = "\
Rust:
safe, fast, productive.
Pick three.
Duct tape.";

    assert_eq!(
        vec!["safe, fast, \u{1b}[38;2;43;255;0;1mproductive.\u{1b}[0m "],
        search(query, contents)
    );
}

#[test]
fn case_insensitive() {
    let query = "RuSt";
    let contents = "\
Rust:
safe, fast, productive.
Pick three.
Trust me.";

    assert_eq!(
        vec![
            "\u{1b}[38;2;43;255;0;1mRust:\u{1b}[0m ",
            "\u{1b}[38;2;43;255;0;1mTrust\u{1b}[0m me. "
        ],
        search_case_insensitive(query, contents)
    );
}

#[test]
fn matching_word_is_wrapped_and_others_are_kept() {
    let found = search("ell", "say hello to jello\nnothing here");
    assert_eq!(found, vec![format!("say {}to {}", marked("hello"), marked("jello"))]);
}

#[test]
fn other_case_is_left_out_unless_case_is_ignored() {
    let contents = "one Apple\ntwo apple\nthree APPLE";
    assert_eq!(search("apple", contents), vec![format!("two {}", marked("apple"))]);
    assert_eq!(
        search_case_insensitive("apple", contents),
        vec![
            format!("one {}", marked("Apple")),
            format!("two {}", marked("apple")),
            format!("three {}", marked("APPLE")),
        ]
    );
}

#[test]
fn upper_case_query_matches_when_case_is_ignored() {
    assert_eq!(search("APPLE", "an apple"), Vec::<String>::new());
    assert_eq!(search_case_insensitive("APPLE", "an apple"), vec![format!("an {}", marked("apple"))]);
}

#[test]
fn entries_follow_the_order_of_the_lines() {
    let contents = "b1 x\nskip\na2 x\nskip\nc3 x\na4 x";
    assert_eq!(
        search("x", contents),
        vec![
            format!("b1 {}", marked("x")),
            format!("a2 {}", marked("x")),
            format!("c3 {}", marked("x")),
            format!("a4 {}", marked("x")),
        ]
    );
}

#[test]
fn equal_lines_are_all_listed() {
    let contents = "same\nsame\nother\nsame";
    assert_eq!(search("same", contents), vec![marked("same"), marked("same"), marked("same")]);
}

#[test]
fn absent_query_gives_an_empty_result() {
    let contents = "Rust:\nsafe, fast, productive.\nPick three.";
    assert!(search("python", contents).is_empty());
    assert!(search_case_insensitive("python", contents).is_empty());
}

#[test]
fn query_across_a_line_break_gives_an_empty_result() {
    assert!(search("a\nb", "a\nb").is_empty());
    assert!(search("\n", "a\nb\n").is_empty());
}

#[test]
fn same_arguments_give_the_same_result() {
    let contents = "Rust:\nsafe, fast, productive.\nTrust me.";
    assert_eq!(search("ust", contents), search("ust", contents));
    assert_eq!(search_case_insensitive("UST", contents), search_case_insensitive("UST", contents));
}

#[test]
fn empty_contents_give_an_empty_result() {
    assert!(search("a", "").is_empty());
    assert!(search("", "").is_empty());
    assert!(search_case_insensitive("a", "").is_empty());
    assert!(search_case_insensitive("", "").is_empty());
}

#[test]
fn empty_query_keeps_every_line_and_wraps_every_word() {
    let contents = "a b\n\nc\n";
    assert_eq!(
        search("", contents),
        vec![format!("{}{}", marked("a"), marked("b")), String::from(" "), marked("c")]
    );
    assert_eq!(search_case_insensitive("", contents), search("", contents));
}

#[test]
fn blank_line_that_matches_is_written_as_one_space() {
    assert_eq!(search("", "a\n\nb"), vec![marked("a"), String::from(" "), marked("b")]);
    assert_eq!(
        search_case_insensitive("", "a\n\nb"),
        vec![marked("a"), String::from(" "), marked("b")]
    );
    assert_eq!(search("", " \t \n"), vec![" "]);
    assert_eq!(search("\t", "a\n \t \nb"), vec![" "]);
    assert_eq!(search("  ", "a  b\n   \n "), vec!["a b ", " "]);
}

#[test]
fn every_entry_ends_in_one_space() {
    let contents = "Rust:\n\nsafe, fast,   productive. \n \t\nPick three.\n";
    for query in ["", " ", "t", "fast, p", "Pick three."] {
        for entry in search(query, contents) {
            assert!(entry.ends_with(' '), "{:?} for {:?}", entry, query);
            assert!(!entry.ends_with("  "), "{:?} for {:?}", entry, query);
        }
    }
    assert_eq!(search("", contents).len(), 5);
}

#[test]
fn query_that_spans_words_keeps_the_line_without_markers() {
    let contents = "Rust:\nsafe, fast, productive.\nPick three.";
    assert_eq!(search("fast, prod", contents), vec!["safe, fast, productive. "]);
}

#[test]
fn white_space_query_keeps_lines_that_hold_it() {
    assert_eq!(search(" ", "a b\nc\n \n"), vec!["a b ", " "]);
    assert_eq!(search("\t", "a\tb\nc d"), vec!["a b "]);
}

#[test]
fn spacing_between_words_is_not_kept() {
    assert_eq!(
        search("b", "  a \t b\u{a0}\u{3000}c  "),
        vec![format!("a {}c ", marked("b"))]
    );
}

#[test]
fn punctuation_stays_inside_the_markers() {
    assert_eq!(search("end", "the (end)."), vec![format!("the {}", marked("(end)."))]);
}

#[test]
fn final_line_feed_adds_no_line() {
    assert_eq!(search("a", "a\n"), vec![marked("a")]);
    assert_eq!(search("", "a\n"), vec![marked("a")]);
    assert_eq!(search("", "a\n\n"), vec![marked("a"), String::from(" ")]);
    assert_eq!(search("", "\n"), vec![String::from(" ")]);
}

#[test]
fn carriage_return_before_a_line_feed_ends_the_line() {
    assert_eq!(search("a", "xa\r\nya\r\n"), vec![marked("xa"), marked("ya")]);
    assert!(search("\r", "xa\r\nya\r\n").is_empty());
    assert_eq!(search("\r", "a\rb\nc"), vec!["a b "]);
    assert_eq!(search("\r", "a\r"), vec!["a "]);
    assert_eq!(search("a\r", "a\r\r\nb"), vec!["a "]);
}

#[test]
fn folding_covers_ascii_letters_only() {
    assert_eq!(search_case_insensitive("z", "A-Z [\\]^_` @"), vec![format!("{}[\\]^_` @ ", marked("A-Z"))]);
    assert!(search_case_insensitive("[", "{").is_empty());
    assert!(search_case_insensitive("@", "`").is_empty());
    assert!(search_case_insensitive("\u{e9}", "\u{c9}").is_empty());
    assert_eq!(search_case_insensitive("\u{c9}T\u{c9}", "\u{c9}t\u{c9}"), vec![marked("\u{c9}t\u{c9}")]);
}

#[test]
fn characters_beyond_ascii_are_kept_as_they_are() {
    assert_eq!(
        search("caf", "na\u{ef}ve caf\u{e9} \u{1f600}"),
        vec![format!("na\u{ef}ve {}\u{1f600} ", marked("caf\u{e9}"))]
    );
}

#[test]
fn markers_of_the_callers_choice_are_used() {
    let style = Highlight::new("[", "]");
    assert_eq!(
        search_with("b", "a b c\nd\nB", MatchMode::CaseSensitive, &style),
        vec!["a [b] c "]
    );
    assert_eq!(
        search_with("b", "a b c\nd\nB", MatchMode::CaseInsensitive, &style),
        vec!["a [b] c ", "[B] "]
    );
    let plain = Highlight::new("", "");
    assert_eq!(search_with("b", "a  b", MatchMode::CaseSensitive, &plain), vec!["a b "]);
}

#[test]
fn terminal_markers_are_bold_green_and_reset() {
    let style = Highlight::terminal();
    assert_eq!(style.prefix, "\u{1b}[38;2;43;255;0;1m");
    assert_eq!(style.suffix, "\u{1b}[0m");
    assert_eq!(style, Highlight::new(ON, OFF));
    assert_eq!(BOLD_GREEN, "\u{1b}[38;2;43;255;0;1m");
    assert_eq!(RESET, "\u{1b}[0m");
}

#[test]
fn line_matcher_returns_a_line_only_where_it_matches() {
    let style = Highlight::new("<", ">");
    assert_eq!(
        match_line("duct", "safe, fast, productive.", MatchMode::CaseSensitive, &style),
        Some(String::from("safe, fast, <productive.> "))
    );
    assert_eq!(match_line("duct", "Duct tape.", MatchMode::CaseSensitive, &style), None);
    assert_eq!(
        match_line("duct", "Duct tape.", MatchMode::CaseInsensitive, &style),
        Some(String::from("<Duct> tape. "))
    );
    assert_eq!(match_line("", "", MatchMode::CaseSensitive, &style), Some(String::from(" ")));
    assert_eq!(match_line(" ", "\t \t", MatchMode::CaseInsensitive, &style), Some(String::from(" ")));
    assert_eq!(match_line("a", "", MatchMode::CaseSensitive, &style), None);
    assert_eq!(
        match_line("b", "a\nb", MatchMode::CaseSensitive, &style),
        Some(String::from("a <b> "))
    );
}

#[test]
fn query_longer_than_the_text_matches_nothing() {
    assert!(search("abcd", "abc").is_empty());
    assert_eq!(search("abc", "abc"), vec![marked("abc")]);
}

#[test]
fn overlapping_occurrences_wrap_the_word_once() {
    assert_eq!(search("aa", "aaaa b"), vec![format!("{}b ", marked("aaaa"))]);
}
