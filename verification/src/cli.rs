//! The choices that the command line offers, and what each of them means.

use crate::text::{chars_of, dropped, lowercase_of, push_range, same_text, string_of, to_lowercase, trim_bounds, trimmed};
use vstd::prelude::*;

verus! {

/// Which indexes a synchronisation fills.
#[derive(Debug, Clone, Copy, PartialEq, Eq, Structural)]
pub enum SyncStrategy {
    Fts,
    Vector,
    All,
}

/// Where embeddings come from.
#[derive(Debug, Clone, Copy, PartialEq, Eq, Structural)]
pub enum Model {
    OpenAI,
    Local,
}

/// Whether results are cached.
#[derive(Debug, Clone, Copy, PartialEq, Eq, Structural)]
pub enum Cache {
    Enabled,
    Disabled,
}

/// How much is logged.
#[derive(Debug, Clone, Copy, PartialEq, Eq, Structural)]
pub enum LogLevel {
    Trace,
    Debug,
    Info,
}

impl SyncStrategy {
    /// Whether the lexical index is filled.
    pub fn lexical(self) -> (b: bool)
        ensures
            b == (self != SyncStrategy::Vector),
    {
        match self {
            SyncStrategy::Vector => false,
            _ => true,
        }
    }

    /// Whether the vector index is filled.
    pub fn vectors(self) -> (b: bool)
        ensures
            b == (self != SyncStrategy::Fts),
    {
        match self {
            SyncStrategy::Fts => false,
            _ => true,
        }
    }
}

impl Model {
    /// The dimension of the vectors that the model gives: 1536 for the
    /// remote model, 512 for the local one.
    pub fn dimension(self) -> (d: u64)
        ensures
            d == match self {
                Model::OpenAI => 1536u64,
                Model::Local => 512u64,
            },
    {
        match self {
            Model::OpenAI => 1536,
            Model::Local => 512,
        }
    }
}

/// The level that a name in lower case stands for.
pub open spec fn level_named(name: Seq<char>) -> Option<LogLevel> {
    if name == "trace"@ {
        Some(LogLevel::Trace)
    } else if name == "debug"@ {
        Some(LogLevel::Debug)
    } else if name == "info"@ {
        Some(LogLevel::Info)
    } else {
        None
    }
}

/// The level that `lowered` stands for once the white space around it is
/// gone.
pub fn level_of(lowered: &str) -> (out: Option<LogLevel>)
    ensures
        out == level_named(trimmed(lowered@, dropped(true))),
{
    let v = chars_of(lowered);
    let (a, b) = trim_bounds(&v, 0, v.len(), true);
    assert(v@.subrange(0, v.len() as int) == v@);
    let mut kept: Vec<char> = Vec::new();
    push_range(&mut kept, &v, a, b);
    let name = string_of(&kept);
    if same_text(name.as_str(), "trace") {
        Some(LogLevel::Trace)
    } else if same_text(name.as_str(), "debug") {
        Some(LogLevel::Debug)
    } else if same_text(name.as_str(), "info") {
        Some(LogLevel::Info)
    } else {
        None
    }
}

/// Reads a log level, in any mix of upper and lower case and with white
/// space around it. There is none for any name but `trace`, `debug` and
/// `info`.
pub fn parse_log_level(raw: &str) -> (out: Option<LogLevel>)
    ensures
        out == level_named(trimmed(lowercase_of(raw@), dropped(true))),
{
    let lowered = to_lowercase(raw);
    level_of(lowered.as_str())
}

} // verus!
