//! Classification of a single log line.

use vstd::prelude::*;
use crate::models::log_line::{level_from_text, LogLevel, LogLine, LogLineModel};
use crate::models::stack_trace::{FrameModel, StackFrame};
use crate::patterns::{
    group, group_or_empty, group_text, group_text_or_empty, groups_view, has_group,
    regex_captures, regex_captures_of,
};
use crate::text::{
    chars_of, ends_with_chars, is_prefix, is_suffix, last_index_of, opt_view,
    parse_unsigned, parse_unsigned_chars, slice_chars, starts_with_chars, string_of, trim,
    trim_chars, rfind_char, lemma_last_index_of,
};

verus! {

/// `[time LEVEL]: message`, with an optional `[source]` before the colon.
pub const SINGLE_BRACKET_LOG_PATTERN: &'static str = r"^\[(?P<time>[^\]\s]+(?:\s+[^\]\s]+)?)\s+(?P<level>[A-Z]+)\](?:\s*\[(?P<source>[^\]]+)\])?:\s*(?P<msg>.*)$";

/// `[time] [thread/LEVEL]: message`, with an optional `[source]`.
pub const MULTI_BRACKET_LOG_PATTERN: &'static str = r"^\[(?P<time>[^\]]+)\]\s*\[(?:(?P<thread>[^/\]]+)/)?(?P<level>[^\]]+)\](?:\s*\[(?P<source>[^\]]+)\])?:\s*(?P<msg>.*)$";

/// `at class.method(File.java:42)`, `(Native Method)` or `(anything)`.
pub const STACK_FRAME_PATTERN: &'static str = r"^\s*at\s+(?P<class_method>[\w\.$<>]+)\((?:(?P<file>[^:]+):(?P<line>\d+)|(?P<native>Native Method)|(?P<unknown>[^)]+))\)(?:\s*~?\[.*\])?$";

/// `Caused by: exception.Class: message`.
pub const CAUSED_BY_PATTERN: &'static str = r"^\s*Caused by:\s+(?P<exception>[\w\.$]+)(?::\s*(?P<msg>.*))?$";

/// A throwable class name ending in `Exception`, `Error` or `Throwable`,
/// possibly after `Exception in thread ...`, with an optional message.
pub const EXCEPTION_HEADER_PATTERN: &'static str = r"^(?:Exception in thread \S+\s+)?(?P<exception>[a-zA-Z_$][a-zA-Z\d_$]*(?:\.[a-zA-Z_$][a-zA-Z\d_$]*)*(?:Exception|Error|Throwable|EventException))(?::\s*(?P<msg>.*))?$";

/// What one line of a log is.
#[derive(Debug, PartialEq, Eq)]
pub enum ParsedLine {
    Log(LogLine),
    ExceptionHeader { exception: String, message: Option<String> },
    CausedBy { exception: String, message: Option<String> },
    Frame(StackFrame),
    MoreFrames(usize),
    Text(String),
}

/// The content of a classified line.
pub enum LineModel {
    Log(LogLineModel),
    ExceptionHeader { exception: Seq<char>, message: Option<Seq<char>> },
    CausedBy { exception: Seq<char>, message: Option<Seq<char>> },
    Frame(FrameModel),
    MoreFrames(nat),
    Text(Seq<char>),
}

impl View for ParsedLine {
    type V = LineModel;

    open spec fn view(&self) -> LineModel {
        match self {
            ParsedLine::Log(l) => LineModel::Log(l@),
            ParsedLine::ExceptionHeader { exception, message } => LineModel::ExceptionHeader {
                exception: exception@,
                message: opt_view(*message),
            },
            ParsedLine::CausedBy { exception, message } => LineModel::CausedBy {
                exception: exception@,
                message: opt_view(*message),
            },
            ParsedLine::Frame(f) => LineModel::Frame(f@),
            ParsedLine::MoreFrames(n) => LineModel::MoreFrames(*n as nat),
            ParsedLine::Text(t) => LineModel::Text(t@),
        }
    }
}

// ---------------------------------------------------------------------------
// Specification
// ---------------------------------------------------------------------------

/// `s` without all of its leading `c` (`str::trim_start_matches`).
pub open spec fn strip_leading(s: Seq<char>, c: char) -> Seq<char>
    decreases s.len(),
{
    if s.len() > 0 && s[0] == c {
        strip_leading(s.drop_first(), c)
    } else {
        s
    }
}

/// `s` without all trailing copies of a non-empty `p`
/// (`str::trim_end_matches`).
pub open spec fn strip_trailing(s: Seq<char>, p: Seq<char>) -> Seq<char>
    decreases s.len(),
{
    if p.len() > 0 && is_suffix(p, s) {
        strip_trailing(s.subrange(0, s.len() - p.len()), p)
    } else {
        s
    }
}

/// The count of a `... N more` line: the number between the dots and
/// `more`, or 0 when it is not a number.
pub open spec fn more_count(t: Seq<char>) -> nat {
    match parse_unsigned(trim(strip_trailing(strip_leading(t, '.'), "more"@)), usize::MAX as nat) {
        Some(n) => n,
        None => 0,
    }
}

/// `class.method` split at its last dot; no dot gives an empty class.
pub open spec fn split_class_method(cm: Seq<char>) -> (Seq<char>, Seq<char>) {
    match last_index_of(cm, '.') {
        Some(i) => (cm.subrange(0, i), cm.subrange(i + 1, cm.len() as int)),
        None => (Seq::empty(), cm),
    }
}

/// The frame described by a match of `STACK_FRAME_PATTERN`.
pub open spec fn frame_model(g: Seq<Option<Seq<char>>>) -> FrameModel {
    let parts = split_class_method(group_or_empty(g, 1));
    FrameModel {
        class_name: parts.0,
        method_name: parts.1,
        file_name: group(g, 2),
        line_number: match group(g, 3) {
            Some(l) => match parse_unsigned(l, u32::MAX as nat) {
                Some(n) => Some(n as u32),
                None => None,
            },
            None => None,
        },
        is_native: group(g, 4) is Some,
    }
}

/// The level named by an optional level group (`UNKNOWN` when absent).
pub open spec fn level_of_group(l: Option<Seq<char>>) -> LogLevel {
    match l {
        Some(w) => level_from_text(w),
        None => level_from_text("UNKNOWN"@),
    }
}

/// The log line described by a match of `MULTI_BRACKET_LOG_PATTERN`.
pub open spec fn multi_bracket_model(g: Seq<Option<Seq<char>>>) -> LogLineModel {
    LogLineModel {
        timestamp: group(g, 1),
        level: level_of_group(group(g, 3)),
        thread_name: group(g, 2),
        source: group(g, 4),
        message: group_or_empty(g, 5),
    }
}

/// The log line described by a match of `SINGLE_BRACKET_LOG_PATTERN`.
pub open spec fn single_bracket_model(g: Seq<Option<Seq<char>>>) -> LogLineModel {
    LogLineModel {
        timestamp: group(g, 1),
        level: level_of_group(group(g, 2)),
        thread_name: None,
        source: group(g, 3),
        message: group_or_empty(g, 4),
    }
}

/// What `LineParser::parse` makes of a line.
pub open spec fn spec_parse_line(line: Seq<char>) -> LineModel {
    let t = trim(line);
    if t.len() == 0 {
        LineModel::Text(line)
    } else {
        match regex_captures_of(CAUSED_BY_PATTERN@, t) {
            Some(g) => LineModel::CausedBy { exception: group_or_empty(g, 1), message: group(g, 2) },
            None => match regex_captures_of(STACK_FRAME_PATTERN@, line) {
                Some(g) => LineModel::Frame(frame_model(g)),
                None => if is_prefix("..."@, t) && is_suffix("more"@, t) {
                    LineModel::MoreFrames(more_count(t))
                } else {
                    match regex_captures_of(MULTI_BRACKET_LOG_PATTERN@, t) {
                        Some(g) => LineModel::Log(multi_bracket_model(g)),
                        None => match regex_captures_of(SINGLE_BRACKET_LOG_PATTERN@, t) {
                            Some(g) => LineModel::Log(single_bracket_model(g)),
                            None => match regex_captures_of(EXCEPTION_HEADER_PATTERN@, t) {
                                Some(g) => LineModel::ExceptionHeader {
                                    exception: group_or_empty(g, 1),
                                    message: group(g, 2),
                                },
                                None => LineModel::Text(line),
                            },
                        },
                    }
                },
            },
        }
    }
}

// ---------------------------------------------------------------------------
// Implementation
// ---------------------------------------------------------------------------

/// Classifies log lines.
pub struct LineParser;

impl LineParser {
    /// Classifies one line: blank lines and unrecognised lines are text;
    /// otherwise, in this order, a `Caused by:` line, a stack frame, a
    /// `... N more` line, a bracketed log line (thread form first), or an
    /// exception header.
    pub fn parse(line: &str) -> (r: ParsedLine)
        ensures
            r@ == spec_parse_line(line@),
    {
        let chars = chars_of(line);
        let tchars = trim_chars(&chars);
        if tchars.len() == 0 {
            return ParsedLine::Text(line.to_owned());
        }
        let trimmed = string_of(&tchars);
        if let Some(g) = regex_captures(CAUSED_BY_PATTERN, trimmed.as_str()) {
            return Self::caused_by_from_match(&g);
        }
        if let Some(g) = regex_captures(STACK_FRAME_PATTERN, line) {
            return ParsedLine::Frame(Self::frame_from_match(&g));
        }
        let dots = chars_of("...");
        let more = chars_of("more");
        if starts_with_chars(&tchars, &dots) && ends_with_chars(&tchars, &more) {
            return ParsedLine::MoreFrames(Self::more_frames_count(&tchars));
        }
        if let Some(g) = regex_captures(MULTI_BRACKET_LOG_PATTERN, trimmed.as_str()) {
            return ParsedLine::Log(Self::multi_bracket_from_match(&g));
        }
        if let Some(g) = regex_captures(SINGLE_BRACKET_LOG_PATTERN, trimmed.as_str()) {
            return ParsedLine::Log(Self::single_bracket_from_match(&g));
        }
        if let Some(g) = regex_captures(EXCEPTION_HEADER_PATTERN, trimmed.as_str()) {
            return Self::exception_header_from_match(&g);
        }
        ParsedLine::Text(line.to_owned())
    }

    /// The `Caused by:` line described by a match of `CAUSED_BY_PATTERN`.
    pub fn caused_by_from_match(g: &Vec<Option<String>>) -> (r: ParsedLine)
        ensures
            r@ == (LineModel::CausedBy {
                exception: group_or_empty(groups_view(*g), 1),
                message: group(groups_view(*g), 2),
            }),
    {
        ParsedLine::CausedBy { exception: group_text_or_empty(g, 1), message: group_text(g, 2) }
    }

    /// The exception header described by a match of
    /// `EXCEPTION_HEADER_PATTERN`.
    pub fn exception_header_from_match(g: &Vec<Option<String>>) -> (r: ParsedLine)
        ensures
            r@ == (LineModel::ExceptionHeader {
                exception: group_or_empty(groups_view(*g), 1),
                message: group(groups_view(*g), 2),
            }),
    {
        ParsedLine::ExceptionHeader {
            exception: group_text_or_empty(g, 1),
            message: group_text(g, 2),
        }
    }

    /// The frame described by a match of `STACK_FRAME_PATTERN`.
    pub fn frame_from_match(g: &Vec<Option<String>>) -> (r: StackFrame)
        ensures
            r@ == frame_model(groups_view(*g)),
    {
        let cm = chars_of(group_text_or_empty(g, 1).as_str());
        proof {
            lemma_last_index_of(cm@, '.');
        }
        let (class_name, method_name) = match rfind_char(&cm, '.') {
            Some(i) => {
                assert(i < cm.len());
                (string_of(&slice_chars(&cm, 0, i)), string_of(&slice_chars(&cm, i + 1, cm.len())))
            },
            None => (String::new(), string_of(&cm)),
        };
        let line_number = match group_text(g, 3) {
            Some(l) => match parse_unsigned_chars(&chars_of(l.as_str()), 0xffff_ffff) {
                Some(n) => Some(n as u32),
                None => None,
            },
            None => None,
        };
        StackFrame {
            class_name,
            method_name,
            file_name: group_text(g, 2),
            line_number,
            is_native: has_group(g, 4),
        }
    }

    /// The log line described by a match of `MULTI_BRACKET_LOG_PATTERN`.
    pub fn multi_bracket_from_match(g: &Vec<Option<String>>) -> (r: LogLine)
        ensures
            r@ == multi_bracket_model(groups_view(*g)),
    {
        LogLine {
            timestamp: group_text(g, 1),
            level: Self::level_from_group(g, 3),
            thread_name: group_text(g, 2),
            source: group_text(g, 4),
            message: group_text_or_empty(g, 5),
        }
    }

    /// The log line described by a match of `SINGLE_BRACKET_LOG_PATTERN`.
    pub fn single_bracket_from_match(g: &Vec<Option<String>>) -> (r: LogLine)
        ensures
            r@ == single_bracket_model(groups_view(*g)),
    {
        LogLine {
            timestamp: group_text(g, 1),
            level: Self::level_from_group(g, 2),
            thread_name: None,
            source: group_text(g, 3),
            message: group_text_or_empty(g, 4),
        }
    }

    fn level_from_group(g: &Vec<Option<String>>, i: usize) -> (r: LogLevel)
        ensures
            r == level_of_group(group(groups_view(*g), i as int)),
    {
        match group_text(g, i) {
            Some(w) => LogLevel::from_str(w.as_str()),
            None => LogLevel::from_str("UNKNOWN"),
        }
    }

    /// The count of a trimmed `... N more` line.
    fn more_frames_count(t: &Vec<char>) -> (r: usize)
        ensures
            r as nat == more_count(t@),
    {
        let a = strip_leading_chars(t, '.');
        let more = chars_of("more");
        let b = strip_trailing_chars(&a, &more);
        let c = trim_chars(&b);
        match parse_unsigned_chars(&c, usize::MAX as u64) {
            Some(n) => n as usize,
            None => 0,
        }
    }
}

/// `v` without its leading `c` characters.
fn strip_leading_chars(v: &Vec<char>, c: char) -> (r: Vec<char>)
    ensures
        r@ == strip_leading(v@, c),
{
    let mut i: usize = 0;
    assert(v@.subrange(0, v@.len() as int) =~= v@);
    while i < v.len() && v[i] == c
        invariant
            i <= v@.len(),
            strip_leading(v@, c) == strip_leading(v@.subrange(i as int, v@.len() as int), c),
        decreases v@.len() - i,
    {
        assert(v@.subrange(i as int, v@.len() as int).drop_first() =~= v@.subrange(
            i + 1,
            v@.len() as int,
        ));
        i = i + 1;
    }
    slice_chars(v, i, v.len())
}

/// `v` without all trailing copies of `p`.
fn strip_trailing_chars(v: &Vec<char>, p: &Vec<char>) -> (r: Vec<char>)
    ensures
        r@ == strip_trailing(v@, p@),
{
    let mut end: usize = v.len();
    assert(v@.subrange(0, v@.len() as int) =~= v@);
    if p.len() == 0 {
        return slice_chars(v, 0, end);
    }
    loop
        invariant
            end <= v@.len(),
            p@.len() > 0,
            strip_trailing(v@, p@) == strip_trailing(v@.subrange(0, end as int), p@),
        decreases end,
    {
        let cur = slice_chars(v, 0, end);
        if !ends_with_chars(&cur, p) {
            return cur;
        }
        assert(cur@.subrange(0, cur@.len() - p@.len()) =~= v@.subrange(0, end - p@.len()));
        end = end - p.len();
    }
}

} // verus!
