//! Line-oriented text search with per-word highlighting.
//!
//! A body of text is cut into lines, every line that contains the query is
//! kept, and each kept line is written out again word by word, with the words
//! that contain the query wrapped in highlight markers. All text is modelled
//! as `Seq<char>`; every executable function states its result over that model.

pub mod std_specs;
pub mod chars;
pub mod text;
pub mod scan;
pub mod highlight;
pub mod search;
pub mod config;
pub mod laws;

pub use crate::config::{heading, run, Config, ConfigError, SearchOptions};
pub use crate::highlight::Highlight;
pub use crate::search::{match_line, search, search_case_insensitive, search_with};
pub use crate::text::MatchMode;
