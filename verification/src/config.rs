//! The configuration of one invocation and what is shown for it.

use vstd::prelude::*;
use vstd::string::StringExecFns;
use crate::highlight::{Highlight, terminal_markers};
use crate::scan::chars_of;
use crate::search::{search_result, search_with};
use crate::text::MatchMode;

verus! {

/// Where the text to search comes from.
#[derive(Clone, Copy, Debug, PartialEq, Eq, Structural)]
pub enum SearchOptions {
    /// The target names a file whose contents are searched.
    File,
    /// The target is itself the text that is searched.
    String,
}

/// Why a command line gives no configuration.
#[derive(Clone, Copy, Debug, PartialEq, Eq, Structural)]
pub enum ConfigError {
    /// Fewer than the program's name and three arguments were given.
    NotEnoughArguments,
    /// The second argument is neither `-f` nor `-s`.
    UnexpectedSearchType,
}

/// What one invocation searches for, where, and how.
#[derive(Debug, PartialEq, Eq)]
pub struct Config {
    pub query: String,
    pub s_type: SearchOptions,
    pub target: String,
    pub case_sensitive: bool,
}

/// The name of the environment variable whose presence switches the search
/// to case-insensitive.
pub const CASE_TOGGLE: &'static str = "CASE_INSENSITIVE";

/// The search type that a flag stands for: `-f` for a file, `-s` for a
/// string, nothing for any other text.
pub open spec fn search_type_of(flag: Seq<char>) -> Option<SearchOptions> {
    if flag == seq!['-', 'f'] {
        Some(SearchOptions::File)
    } else if flag == seq!['-', 's'] {
        Some(SearchOptions::String)
    } else {
        None
    }
}

impl SearchOptions {
    /// Reads a search type from its flag.
    pub fn new(flag: &str) -> (r: Option<SearchOptions>)
        ensures
            r == search_type_of(flag@),
    {
        let c = chars_of(flag);
        if c.len() == 2 && c[0] == '-' && c[1] == 'f' {
            assert(flag@ =~= seq!['-', 'f']);
            Some(SearchOptions::File)
        } else if c.len() == 2 && c[0] == '-' && c[1] == 's' {
            assert(flag@ =~= seq!['-', 's']);
            Some(SearchOptions::String)
        } else {
            None
        }
    }
}

impl ConfigError {
    /// The message that goes with the error.
    pub fn message(&self) -> (text: String)
        ensures
            text@ == (match *self {
                ConfigError::NotEnoughArguments => "Not enough arguments"@,
                ConfigError::UnexpectedSearchType => "Unexpected search type!"@,
            }),
    {
        match self {
            ConfigError::NotEnoughArguments => String::from_str("Not enough arguments"),
            ConfigError::UnexpectedSearchType => String::from_str("Unexpected search type!"),
        }
    }
}

impl Config {
    /// The mode that the configuration asks for.
    pub open spec fn mode_spec(&self) -> MatchMode {
        if self.case_sensitive {
            MatchMode::CaseSensitive
        } else {
            MatchMode::CaseInsensitive
        }
    }

    /// Reads a configuration from the command line `args`, whose first entry
    /// is the program's name, and from whether the case toggle is set in the
    /// environment. The toggle being set makes the search case-insensitive.
    pub fn new(args: &[String], toggle_set: bool) -> (r: Result<Config, ConfigError>)
        ensures
            (match r {
                Ok(config) => {
                    &&& args.len() >= 4
                    &&& search_type_of(args[2]@) == Some(config.s_type)
                    &&& config.query@ == args[1]@
                    &&& config.target@ == args[3]@
                    &&& config.case_sensitive == !toggle_set
                },
                Err(ConfigError::NotEnoughArguments) => args.len() < 4,
                Err(ConfigError::UnexpectedSearchType) => {
                    &&& args.len() >= 4
                    &&& search_type_of(args[2]@) is None
                },
            }),
    {
        if args.len() < 4 {
            return Err(ConfigError::NotEnoughArguments);
        }
        match SearchOptions::new(args[2].as_str()) {
            None => Err(ConfigError::UnexpectedSearchType),
            Some(s_type) => Ok(
                Config {
                    query: args[1].clone(),
                    s_type,
                    target: args[3].clone(),
                    case_sensitive: !toggle_set,
                },
            ),
        }
    }

    /// The text to search where the target is itself that text; nothing where
    /// the target names a file, whose contents have to be read first.
    pub fn literal_text(&self) -> (text: Option<&str>)
        ensures
            text.deep_view() == (match self.s_type {
                SearchOptions::File => None::<Seq<char>>,
                SearchOptions::String => Some(self.target@),
            }),
    {
        match self.s_type {
            SearchOptions::File => None,
            SearchOptions::String => Some(self.target.as_str()),
        }
    }

    /// The mode that the configuration asks for.
    pub fn mode(&self) -> (mode: MatchMode)
        ensures
            mode == self.mode_spec(),
    {
        if self.case_sensitive {
            MatchMode::CaseSensitive
        } else {
            MatchMode::CaseInsensitive
        }
    }
}

/// The two lines that announce a search: what is searched for, and where.
pub open spec fn heading_of(config: Config) -> Seq<Seq<char>> {
    let marks = terminal_markers();
    let place = match config.s_type {
        SearchOptions::File => "In the file: "@,
        SearchOptions::String => "In the string: "@,
    };
    seq![
        "Searching for: "@ + marks.prefix + config.query@ + marks.suffix,
        place + marks.prefix + config.target@ + marks.suffix + seq!['\n'],
    ]
}

/// The line that stands for an empty result: the words in bold yellow, and
/// a line feed.
pub const NOTHING_FOUND: &'static str = "\x1b[38;2;237;237;0;1mNothing found\x1b[0m\n";

/// What is shown for a result: its entries, or the line that says that
/// nothing was found.
pub open spec fn report_of(found: Seq<Seq<char>>) -> Seq<Seq<char>> {
    if found.len() > 0 {
        found
    } else {
        seq![NOTHING_FOUND@]
    }
}

/// The lines that announce the search that `config` describes.
pub fn heading(config: &Config) -> (lines: Vec<String>)
    ensures
        lines.deep_view() == heading_of(*config),
{
    let style = Highlight::terminal();
    let mut first = String::from_str("Searching for: ");
    first.append(style.prefix.as_str());
    first.append(config.query.as_str());
    first.append(style.suffix.as_str());
    let mut second = match config.s_type {
        SearchOptions::File => String::from_str("In the file: "),
        SearchOptions::String => String::from_str("In the string: "),
    };
    second.append(style.prefix.as_str());
    second.append(config.target.as_str());
    second.append(style.suffix.as_str());
    second.push('\n');
    let mut lines: Vec<String> = Vec::new();
    lines.push(first);
    lines.push(second);
    assert(lines.deep_view()[1] =~= heading_of(*config)[1]);
    lines
}

/// Searches `contents` as `config` asks and returns the lines to show: the
/// entries of the result, or one line that says that nothing was found.
pub fn run(config: &Config, contents: &str) -> (lines: Vec<String>)
    ensures
        lines.deep_view() == report_of(
            search_result(config.query@, contents@, config.mode_spec(), terminal_markers()),
        ),
{
    let style = Highlight::terminal();
    let found = search_with(config.query.as_str(), contents, config.mode(), &style);
    if found.len() > 0 {
        found
    } else {
        let mut lines: Vec<String> = Vec::new();
        lines.push(String::from_str(NOTHING_FOUND));
        lines
    }
}

} // verus!
