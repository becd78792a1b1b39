//! Logging options and log-level names.
use vstd::prelude::*;
use crate::text::str_eq;

verus! {

/// Which optional log output is switched on.
#[derive(Clone)]
pub struct LogConfig {
    pub quiet: bool,
    pub stats: bool,
}

impl Default for LogConfig {
    fn default() -> (c: Self)
        ensures
            !c.quiet,
            !c.stats,
    {
        LogConfig { quiet: false, stats: false }
    }
}

/// The levels that a log-level name selects.
#[derive(Debug, Clone, Copy, PartialEq, Eq, Structural)]
pub enum LogLevel {
    Error,
    Warn,
    Info,
    Debug,
    Trace,
}

/// What `str::to_lowercase` returns for a string: its Unicode lowercase.
pub uninterp spec fn lowercase_of(s: Seq<char>) -> Seq<char>;

/// The lowercase of an ASCII character: `A` to `Z` become `a` to `z`.
pub open spec fn ascii_lowercase(c: char) -> char {
    if 'A' <= c && c <= 'Z' {
        ((c as u32) + 32) as char
    } else {
        c
    }
}

/// Every character is ASCII.
pub open spec fn is_ascii_text(s: Seq<char>) -> bool {
    forall|i: int| 0 <= i < s.len() ==> (s[i] as u32) < 128
}

/// `str::to_lowercase`: the Unicode lowercase of the string. The contract
/// names the result (`lowercase_of`); of ASCII text it says what it is,
/// each capital letter lowered and every other character kept.
#[verifier::external_body]
fn to_lowercase(s: &str) -> (r: String)
    ensures
        r@ == lowercase_of(s@),
        is_ascii_text(s@) ==> r@ == s@.map_values(|c: char| ascii_lowercase(c)),
{
    s.to_lowercase()
}

/// The level that a lowercase level name selects; unknown names select `Info`.
pub open spec fn level_named(name: Seq<char>) -> LogLevel {
    if name == "error"@ {
        LogLevel::Error
    } else if name == "warn"@ {
        LogLevel::Warn
    } else if name == "info"@ {
        LogLevel::Info
    } else if name == "debug"@ {
        LogLevel::Debug
    } else if name == "trace"@ {
        LogLevel::Trace
    } else {
        LogLevel::Info
    }
}

/// The level selected by an already lowercased level name.
pub fn level_from_lowercase(name: &str) -> (level: LogLevel)
    ensures
        level == level_named(name@),
{
    if str_eq(name, "error") {
        LogLevel::Error
    } else if str_eq(name, "warn") {
        LogLevel::Warn
    } else if str_eq(name, "info") {
        LogLevel::Info
    } else if str_eq(name, "debug") {
        LogLevel::Debug
    } else if str_eq(name, "trace") {
        LogLevel::Trace
    } else {
        LogLevel::Info
    }
}

/// Parses a log-level name, ignoring case; unknown names select `Info`.
pub fn parse_log_level(level: &str) -> (r: LogLevel)
    ensures
        r == level_named(lowercase_of(level@)),
        is_ascii_text(level@) ==> r == level_named(level@.map_values(|c: char| ascii_lowercase(c))),
{
    let lower = to_lowercase(level);
    level_from_lowercase(lower.as_str())
}

/// Level names are read without regard to case: names with the same
/// lowercase select the same level.
pub proof fn lemma_level_ignores_case(a: Seq<char>, b: Seq<char>)
    requires
        lowercase_of(a) == lowercase_of(b),
    ensures
        level_named(lowercase_of(a)) == level_named(lowercase_of(b)),
{
}

} // verus!
