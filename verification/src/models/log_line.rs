//! Log levels and single log lines.

use vstd::prelude::*;
use crate::text::{copy_opt, copy_string, opt_view, str_equal, to_uppercase, uppercase_of};

verus! {

/// Severity of a log line.
#[derive(Debug, Clone, Copy, PartialEq, Eq, Hash, Structural)]
pub enum LogLevel {
    Info,
    Warn,
    Error,
    Debug,
    Trace,
    Unknown,
}

/// The level that an (already uppercased) level word names.
pub open spec fn level_of_word(w: Seq<char>) -> LogLevel {
    if w == "INFO"@ {
        LogLevel::Info
    } else if w == "WARN"@ || w == "WARNING"@ {
        LogLevel::Warn
    } else if w == "ERROR"@ || w == "SEVERE"@ || w == "FATAL"@ {
        LogLevel::Error
    } else if w == "DEBUG"@ {
        LogLevel::Debug
    } else if w == "TRACE"@ {
        LogLevel::Trace
    } else {
        LogLevel::Unknown
    }
}

/// The level named by a level word of any case.
pub open spec fn level_from_text(s: Seq<char>) -> LogLevel {
    level_of_word(uppercase_of(s))
}

/// The canonical name of a level.
pub open spec fn level_name(l: LogLevel) -> Seq<char> {
    match l {
        LogLevel::Info => "INFO"@,
        LogLevel::Warn => "WARN"@,
        LogLevel::Error => "ERROR"@,
        LogLevel::Debug => "DEBUG"@,
        LogLevel::Trace => "TRACE"@,
        LogLevel::Unknown => "UNKNOWN"@,
    }
}

/// Reading back the name of a level gives that level.
pub proof fn lemma_level_name_round_trip(l: LogLevel)
    ensures
        level_of_word(level_name(l)) == l,
{
    reveal_strlit("INFO");
    reveal_strlit("WARN");
    reveal_strlit("WARNING");
    reveal_strlit("ERROR");
    reveal_strlit("SEVERE");
    reveal_strlit("FATAL");
    reveal_strlit("DEBUG");
    reveal_strlit("TRACE");
    reveal_strlit("UNKNOWN");
    let n = level_name(l);
    if l != LogLevel::Info {
        assert(n != "INFO"@) by {
            assert(n[0] != "INFO"@[0]);
        }
    }
    if l != LogLevel::Warn {
        assert(n != "WARN"@ && n != "WARNING"@) by {
            assert(n[0] != "WARN"@[0]);
            assert(n[0] != "WARNING"@[0]);
        }
    }
    if l != LogLevel::Error {
        assert(n != "ERROR"@ && n != "SEVERE"@ && n != "FATAL"@) by {
            assert(n[0] != "ERROR"@[0]);
            assert(n[0] != "SEVERE"@[0]);
            assert(n[0] != "FATAL"@[0]);
        }
    }
    if l != LogLevel::Debug {
        assert(n != "DEBUG"@) by {
            assert(n[0] != "DEBUG"@[0]);
        }
    }
    if l != LogLevel::Trace {
        assert(n != "TRACE"@) by {
            assert(n[0] != "TRACE"@[0]);
        }
    }
}

impl LogLevel {
    /// Reads a level word in any case (`warning` and `WARN` are warnings,
    /// `SEVERE` and `FATAL` are errors); anything else is `Unknown`.
    pub fn from_str(s: &str) -> (r: LogLevel)
        ensures
            r == level_from_text(s@),
    {
        let upper = to_uppercase(s);
        Self::from_upper(upper.as_str())
    }

    /// Reads a level word that is already in uppercase.
    pub fn from_upper(word: &str) -> (r: LogLevel)
        ensures
            r == level_of_word(word@),
    {
        if str_equal(word, "INFO") {
            LogLevel::Info
        } else if str_equal(word, "WARN") || str_equal(word, "WARNING") {
            LogLevel::Warn
        } else if str_equal(word, "ERROR") || str_equal(word, "SEVERE") || str_equal(
            word,
            "FATAL",
        ) {
            LogLevel::Error
        } else if str_equal(word, "DEBUG") {
            LogLevel::Debug
        } else if str_equal(word, "TRACE") {
            LogLevel::Trace
        } else {
            LogLevel::Unknown
        }
    }

    /// The canonical uppercase name of the level.
    pub fn as_str(&self) -> (r: &'static str)
        ensures
            r@ == level_name(*self),
    {
        match self {
            LogLevel::Info => "INFO",
            LogLevel::Warn => "WARN",
            LogLevel::Error => "ERROR",
            LogLevel::Debug => "DEBUG",
            LogLevel::Trace => "TRACE",
            LogLevel::Unknown => "UNKNOWN",
        }
    }
}

/// One log line, split into its parts.
#[derive(Debug, Clone, PartialEq, Eq)]
pub struct LogLine {
    pub timestamp: Option<String>,
    pub level: LogLevel,
    pub thread_name: Option<String>,
    pub source: Option<String>,
    pub message: String,
}

/// The content of a log line.
pub struct LogLineModel {
    pub timestamp: Option<Seq<char>>,
    pub level: LogLevel,
    pub thread_name: Option<Seq<char>>,
    pub source: Option<Seq<char>>,
    pub message: Seq<char>,
}

impl View for LogLine {
    type V = LogLineModel;

    open spec fn view(&self) -> LogLineModel {
        LogLineModel {
            timestamp: opt_view(self.timestamp),
            level: self.level,
            thread_name: opt_view(self.thread_name),
            source: opt_view(self.source),
            message: self.message@,
        }
    }
}

impl LogLine {
    pub fn new(
        timestamp: Option<String>,
        level: LogLevel,
        thread_name: Option<String>,
        source: Option<String>,
        message: String,
    ) -> (r: Self)
        ensures
            r.timestamp == timestamp,
            r.level == level,
            r.thread_name == thread_name,
            r.source == source,
            r.message == message,
    {
        Self { timestamp, level, thread_name, source, message }
    }

    /// A copy with the same content.
    pub fn duplicate(&self) -> (r: Self)
        ensures
            r@ == self@,
    {
        LogLine {
            timestamp: copy_opt(&self.timestamp),
            level: self.level,
            thread_name: copy_opt(&self.thread_name),
            source: copy_opt(&self.source),
            message: copy_string(&self.message),
        }
    }
}

} // verus!
