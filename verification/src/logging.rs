//! The log level and log target filter of the bot, read from their names.
use vstd::prelude::*;
use crate::text::str_eq;

verus! {

/// The level of the messages to log.
#[derive(Clone, Copy, Debug, PartialEq, Eq)]
pub enum Level {
    Error,
    Warn,
    Info,
    Debug,
    Trace,
}

/// Which targets to log: the bot's own, or all.
#[derive(Clone, Copy, Debug, PartialEq, Eq)]
pub enum Filter {
    MatrixBot,
    All,
}

/// The level named by `s`; `Info` for any other name.
pub open spec fn level_named(s: Seq<char>) -> Level {
    if s == "error"@ {
        Level::Error
    } else if s == "warn"@ {
        Level::Warn
    } else if s == "info"@ {
        Level::Info
    } else if s == "debug"@ {
        Level::Debug
    } else if s == "trace"@ {
        Level::Trace
    } else {
        Level::Info
    }
}

/// The filter named by `s`; the bot's own targets for any other name.
pub open spec fn filter_named(s: Seq<char>) -> Filter {
    if s == "matrix_bot"@ {
        Filter::MatrixBot
    } else if s == "matrix-bot"@ {
        Filter::MatrixBot
    } else {
        Filter::MatrixBot
    }
}

pub open spec fn level_text(l: Level) -> Seq<char> {
    match l {
        Level::Error => "error"@,
        Level::Warn => "warn"@,
        Level::Info => "info"@,
        Level::Debug => "debug"@,
        Level::Trace => "trace"@,
    }
}

pub open spec fn filter_text(f: Filter) -> Seq<char> {
    match f {
        Filter::MatrixBot => "matrix_bot="@,
        Filter::All => ""@,
    }
}

impl Level {
    /// The level named by `s`; `Info` for any other name.
    pub fn from_name(s: &str) -> (l: Level)
        ensures
            l == level_named(s@),
    {
        if str_eq(s, "error") {
            Level::Error
        } else if str_eq(s, "warn") {
            Level::Warn
        } else if str_eq(s, "info") {
            Level::Info
        } else if str_eq(s, "debug") {
            Level::Debug
        } else if str_eq(s, "trace") {
            Level::Trace
        } else {
            Level::Info
        }
    }

    /// The name of the level.
    pub fn as_str(&self) -> (r: &'static str)
        ensures
            r@ == level_text(*self),
    {
        match self {
            Level::Error => "error",
            Level::Warn => "warn",
            Level::Info => "info",
            Level::Debug => "debug",
            Level::Trace => "trace",
        }
    }
}

impl Default for Level {
    fn default() -> (l: Self)
        ensures
            l == Level::Info,
    {
        Level::Info
    }
}

impl Filter {
    /// The filter named by `s`; the bot's own targets for any other name.
    pub fn from_name(s: &str) -> (f: Filter)
        ensures
            f == filter_named(s@),
    {
        if str_eq(s, "matrix_bot") {
            Filter::MatrixBot
        } else if str_eq(s, "matrix-bot") {
            Filter::MatrixBot
        } else {
            Filter::MatrixBot
        }
    }

    /// The target prefix of the filter.
    pub fn as_str(&self) -> (r: &'static str)
        ensures
            r@ == filter_text(*self),
    {
        match self {
            Filter::MatrixBot => "matrix_bot=",
            Filter::All => "",
        }
    }
}

impl Default for Filter {
    fn default() -> (f: Self)
        ensures
            f == Filter::MatrixBot,
    {
        Filter::MatrixBot
    }
}

/// The tracing filter directive: the target prefix, then the level.
pub fn log_filter(level: Level, filter: Filter) -> (r: String)
    ensures
        r@ == filter_text(filter) + level_text(level),
{
    let mut r = String::new();
    r.append(filter.as_str());
    r.append(level.as_str());
    r
}

} // verus!
