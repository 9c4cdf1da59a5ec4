use grep_rust::config::{CASE_TOGGLE, NOTHING_FOUND};
use grep_rust::{heading, run, Config, ConfigError, MatchMode, SearchOptions};

fn arguments(list: &[&str]) -> Vec<String> {
    list.iter().map(|s| String::from(*s)).collect()
}

fn config_for(query: &str, s_type: SearchOptions, target: &str, case_sensitive: bool) -> Config {
    Config { query: String::from(query), s_type, target: String::from(target), case_sensitive }
}

#[test]
fn config_is_read_from_the_arguments() {
    let args = arguments(&["grep", "duct", "-f", "poem.txt"]);
    assert_eq!(Config::new(&args, false), Ok(config_for("duct", SearchOptions::File, "poem.txt", true)));
    let args = arguments(&["grep", "duct", "-s", "Duct tape."]);
    assert_eq!(
        Config::new(&args, false),
        Ok(config_for("duct", SearchOptions::String, "Duct tape.", true))
    );
}

#[test]
fn toggle_in_the_environment_makes_the_search_ignore_case() {
    let args = arguments(&["grep", "duct", "-s", "Duct tape."]);
    assert_eq!(Config::new(&args, true).map(|c| c.case_sensitive), Ok(false));
    assert_eq!(Config::new(&args, false).map(|c| c.case_sensitive), Ok(true));
    assert_eq!(Config::new(&args, true).map(|c| c.mode()), Ok(MatchMode::CaseInsensitive));
    assert_eq!(Config::new(&args, false).map(|c| c.mode()), Ok(MatchMode::CaseSensitive));
    assert_eq!(CASE_TOGGLE, "CASE_INSENSITIVE");
}

#[test]
fn further_arguments_are_ignored() {
    let args = arguments(&["grep", "q", "-s", "text", "more", "-f"]);
    assert_eq!(Config::new(&args, false), Ok(config_for("q", SearchOptions::String, "text", true)));
}

#[test]
fn too_few_arguments_are_refused() {
    assert_eq!(Config::new(&[], false), Err(ConfigError::NotEnoughArguments));
    assert_eq!(Config::new(&arguments(&["grep"]), false), Err(ConfigError::NotEnoughArguments));
    assert_eq!(
        Config::new(&arguments(&["grep", "q", "-f"]), true),
        Err(ConfigError::NotEnoughArguments)
    );
    assert_eq!(
        Config::new(&arguments(&["grep", "q", "-x"]), true),
        Err(ConfigError::NotEnoughArguments)
    );
}

#[test]
fn unknown_search_type_is_refused() {
    for flag in ["-x", "", "f", "-", "-F", "-S", "-fs", "--f", " -f", "-f "] {
        let args = arguments(&["grep", "q", flag, "target"]);
        assert_eq!(Config::new(&args, false), Err(ConfigError::UnexpectedSearchType), "{:?}", flag);
    }
}

#[test]
fn search_type_is_read_from_its_flag() {
    assert_eq!(SearchOptions::new("-f"), Some(SearchOptions::File));
    assert_eq!(SearchOptions::new("-s"), Some(SearchOptions::String));
    assert_eq!(SearchOptions::new("-x"), None);
    assert_eq!(SearchOptions::new(""), None);
    assert_eq!(SearchOptions::new("-f\n"), None);
    assert_eq!(SearchOptions::new("\u{2d}\u{66}"), Some(SearchOptions::File));
}

#[test]
fn errors_have_their_messages() {
    assert_eq!(ConfigError::NotEnoughArguments.message(), "Not enough arguments");
    assert_eq!(ConfigError::UnexpectedSearchType.message(), "Unexpected search type!");
}

#[test]
fn heading_names_query_and_target() {
    let config = config_for("duct", SearchOptions::File, "poem.txt", true);
    assert_eq!(
        heading(&config),
        vec![
            "Searching for: \u{1b}[38;2;43;255;0;1mduct\u{1b}[0m",
            "In the file: \u{1b}[38;2;43;255;0;1mpoem.txt\u{1b}[0m\n",
        ]
    );
    let config = config_for("", SearchOptions::String, "a b", false);
    assert_eq!(
        heading(&config),
        vec![
            "Searching for: \u{1b}[38;2;43;255;0;1m\u{1b}[0m",
            "In the string: \u{1b}[38;2;43;255;0;1ma b\u{1b}[0m\n",
        ]
    );
}

#[test]
fn run_returns_the_entries_of_the_result() {
    let contents = "Rust:\nsafe, fast, productive.\nPick three.\nDuct tape.";
    let config = config_for("duct", SearchOptions::String, contents, true);
    assert_eq!(
        run(&config, contents),
        vec!["safe, fast, \u{1b}[38;2;43;255;0;1mproductive.\u{1b}[0m "]
    );
    let config = config_for("duct", SearchOptions::String, contents, false);
    assert_eq!(
        run(&config, contents),
        vec![
            "safe, fast, \u{1b}[38;2;43;255;0;1mproductive.\u{1b}[0m ",
            "\u{1b}[38;2;43;255;0;1mDuct\u{1b}[0m tape. ",
        ]
    );
}

#[test]
fn run_says_when_nothing_was_found() {
    let config = config_for("python", SearchOptions::File, "poem.txt", true);
    assert_eq!(
        run(&config, "Rust:\nsafe, fast, productive."),
        vec!["\u{1b}[38;2;237;237;0;1mNothing found\u{1b}[0m\n"]
    );
    assert_eq!(run(&config, ""), vec!["\u{1b}[38;2;237;237;0;1mNothing found\u{1b}[0m\n"]);
    assert_eq!(NOTHING_FOUND, "\u{1b}[38;2;237;237;0;1mNothing found\u{1b}[0m\n");
}

#[test]
fn run_keeps_the_entry_of_a_blank_line() {
    let config = config_for("", SearchOptions::String, "\n", true);
    assert_eq!(run(&config, "\n"), vec![" "]);
}

#[test]
fn literal_text_is_the_target_of_a_string_search() {
    let config = config_for("q", SearchOptions::String, "some text", true);
    assert_eq!(config.literal_text(), Some("some text"));
    let config = config_for("q", SearchOptions::File, "poem.txt", true);
    assert_eq!(config.literal_text(), None);
}
