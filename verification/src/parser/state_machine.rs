//! Grouping classified lines into log events: a log line, an error with its
//! stack trace, or raw text.

use vstd::prelude::*;
use crate::models::log_line::{LogLevel, LogLine, LogLineModel};
use crate::models::stack_trace::{
    frames_view, trace_chain, FrameModel, LevelModel, StackFrame, StackTraceBlock, top_level,
};
use crate::parser::line_parser::{spec_parse_line, LineModel, LineParser, ParsedLine};
use crate::text::{copy_string, opt_view};

verus! {

/// A unit of log content.
#[derive(Debug, PartialEq, Eq)]
pub enum ParsedEvent {
    /// A log line with no stack trace after it.
    Line(LogLine),
    /// A stack trace, with the log line that announced it if there was one,
    /// and the number of input lines it spans.
    ErrorWithTrace { log: Option<LogLine>, trace: StackTraceBlock, line_count: usize },
    /// A line that is neither a log line nor part of a stack trace.
    Raw(String),
}

/// The content of an event.
pub enum EventModel {
    Line(LogLineModel),
    ErrorWithTrace { log: Option<LogLineModel>, trace: Seq<LevelModel>, line_count: nat },
    Raw(Seq<char>),
}

/// The content of an optional log line.
pub open spec fn opt_log_view(l: Option<LogLine>) -> Option<LogLineModel> {
    match l {
        Some(x) => Some(x@),
        None => None,
    }
}

impl View for ParsedEvent {
    type V = EventModel;

    open spec fn view(&self) -> EventModel {
        match self {
            ParsedEvent::Line(l) => EventModel::Line(l@),
            ParsedEvent::ErrorWithTrace { log, trace, line_count } => EventModel::ErrorWithTrace {
                log: opt_log_view(*log),
                trace: trace@,
                line_count: *line_count as nat,
            },
            ParsedEvent::Raw(t) => EventModel::Raw(t@),
        }
    }
}

/// The contents of a sequence of events.
pub open spec fn events_view(v: Seq<ParsedEvent>) -> Seq<EventModel> {
    v.map_values(|e: ParsedEvent| e@)
}

/// What the parser holds between lines.
pub enum StateModel {
    /// Nothing pending.
    Idle,
    /// A log line that a stack trace may still follow.
    PendingLog(LogLineModel),
    /// A stack trace being read: the announcing log line, the exceptions of
    /// the cause chain so far, and the number of lines read for it.
    Accumulating { log: Option<LogLineModel>, levels: Seq<LevelModel>, lines: nat },
}

/// A new exception level with no frames.
pub open spec fn new_level(exception: Seq<char>, message: Option<Seq<char>>) -> LevelModel {
    LevelModel { exception, message, frames: Seq::empty() }
}

/// `levels` with `f` added to the frames of its innermost exception.
pub open spec fn add_frame_to_last(levels: Seq<LevelModel>, f: crate::models::stack_trace::FrameModel) -> Seq<LevelModel> {
    let last = levels.last();
    levels.update(
        levels.len() - 1,
        LevelModel { exception: last.exception, message: last.message, frames: last.frames.push(f) },
    )
}

/// The state and the events that follow from reading `line`, classified as
/// `parsed`, in `state`.
pub open spec fn spec_step(state: StateModel, parsed: LineModel, line: Seq<char>) -> (
    StateModel,
    Seq<EventModel>,
) {
    match state {
        StateModel::Idle => match parsed {
            LineModel::Log(l) => (StateModel::PendingLog(l), seq![]),
            LineModel::ExceptionHeader { exception, message } => (
                StateModel::Accumulating {
                    log: None,
                    levels: seq![new_level(exception, message)],
                    lines: 1,
                },
                seq![],
            ),
            LineModel::Text(t) => (StateModel::Idle, seq![EventModel::Raw(t)]),
            _ => (StateModel::Idle, seq![EventModel::Raw(line)]),
        },
        StateModel::PendingLog(prev) => match parsed {
            LineModel::ExceptionHeader { exception, message } => (
                StateModel::Accumulating {
                    log: Some(prev),
                    levels: seq![new_level(exception, message)],
                    lines: 2,
                },
                seq![],
            ),
            LineModel::Frame(f) => (
                StateModel::Accumulating {
                    log: Some(prev),
                    levels: seq![
                        LevelModel {
                            exception: "java.lang.Exception"@,
                            message: Some(prev.message),
                            frames: seq![f],
                        },
                    ],
                    lines: 2,
                },
                seq![],
            ),
            LineModel::Log(l) => (StateModel::PendingLog(l), seq![EventModel::Line(prev)]),
            LineModel::Text(t) => (
                StateModel::Idle,
                seq![EventModel::Line(prev), EventModel::Raw(t)],
            ),
            _ => (StateModel::Idle, seq![EventModel::Line(prev), EventModel::Raw(line)]),
        },
        StateModel::Accumulating { log, levels, lines } => match parsed {
            LineModel::Frame(f) => (
                StateModel::Accumulating { log, levels: add_frame_to_last(levels, f), lines: lines + 1 },
                seq![],
            ),
            LineModel::CausedBy { exception, message } => (
                StateModel::Accumulating {
                    log,
                    levels: levels.push(new_level(exception, message)),
                    lines: lines + 1,
                },
                seq![],
            ),
            LineModel::ExceptionHeader { exception, message } => (
                StateModel::Accumulating {
                    log,
                    levels: levels.push(new_level(exception, message)),
                    lines: lines + 1,
                },
                seq![],
            ),
            LineModel::MoreFrames(_) => (StateModel::Accumulating { log, levels, lines: lines + 1 }, seq![]),
            LineModel::Log(l) => (
                StateModel::PendingLog(l),
                seq![EventModel::ErrorWithTrace { log, trace: levels, line_count: lines }],
            ),
            LineModel::Text(t) => (
                StateModel::Idle,
                seq![
                    EventModel::ErrorWithTrace { log, trace: levels, line_count: lines },
                    EventModel::Raw(t),
                ],
            ),
        },
    }
}

/// The events still held by `state` at the end of the input.
pub open spec fn spec_finish(state: StateModel) -> Seq<EventModel> {
    match state {
        StateModel::Idle => seq![],
        StateModel::PendingLog(l) => seq![EventModel::Line(l)],
        StateModel::Accumulating { log, levels, lines } => seq![
            EventModel::ErrorWithTrace { log, trace: levels, line_count: lines },
        ],
    }
}

/// The input lines that `state` holds and has not yet given out.
pub open spec fn pending_lines(state: StateModel) -> nat {
    match state {
        StateModel::Idle => 0,
        StateModel::PendingLog(_) => 1,
        StateModel::Accumulating { lines, .. } => lines,
    }
}

/// The input lines that an event stands for.
pub open spec fn event_lines(e: EventModel) -> nat {
    match e {
        EventModel::ErrorWithTrace { line_count, .. } => line_count,
        _ => 1,
    }
}

/// The input lines that a sequence of events stands for.
pub open spec fn events_lines(es: Seq<EventModel>) -> nat
    decreases es.len(),
{
    if es.len() == 0 {
        0
    } else {
        events_lines(es.drop_last()) + event_lines(es.last())
    }
}

/// Whether a state is one the parser can be in: a stack trace being read
/// always has at least one exception.
pub open spec fn state_wf(state: StateModel) -> bool {
    match state {
        StateModel::Accumulating { levels, .. } => levels.len() >= 1,
        _ => true,
    }
}

/// Every stack trace that an event carries has at least one exception.
pub open spec fn event_wf(e: EventModel) -> bool {
    match e {
        EventModel::ErrorWithTrace { trace, .. } => trace.len() >= 1,
        _ => true,
    }
}

// ---------------------------------------------------------------------------
// Laws
// ---------------------------------------------------------------------------

/// Reading a line accounts for it exactly once: the lines of the events it
/// gives out plus the lines still pending equal the lines pending before
/// plus the one just read.
pub proof fn lemma_step_conserves_lines(state: StateModel, parsed: LineModel, line: Seq<char>)
    ensures
        events_lines(spec_step(state, parsed, line).1) + pending_lines(spec_step(state, parsed, line).0)
            == pending_lines(state) + 1,
{
    reveal_with_fuel(events_lines, 3);
    let es = spec_step(state, parsed, line).1;
    if es.len() == 2 {
        assert(es.drop_last().drop_last() =~= Seq::<EventModel>::empty());
    } else if es.len() == 1 {
        assert(es.drop_last() =~= Seq::<EventModel>::empty());
    }
}

/// At the end of the input every pending line is given out.
pub proof fn lemma_finish_conserves_lines(state: StateModel)
    ensures
        events_lines(spec_finish(state)) == pending_lines(state),
{
    reveal_with_fuel(events_lines, 2);
    let es = spec_finish(state);
    if es.len() == 1 {
        assert(es.drop_last() =~= Seq::<EventModel>::empty());
    }
}

/// A well-formed state stays well-formed, and every trace given out has at
/// least one exception.
pub proof fn lemma_step_keeps_wf(state: StateModel, parsed: LineModel, line: Seq<char>)
    requires
        state_wf(state),
    ensures
        state_wf(spec_step(state, parsed, line).0),
        forall|i: int|
            0 <= i < spec_step(state, parsed, line).1.len() ==> event_wf(
                #[trigger] spec_step(state, parsed, line).1[i],
            ),
{
}

/// While a stack trace is read, a frame line goes to the innermost
/// exception of the cause chain (the one opened last): its frames gain the
/// frame at the end, every other exception stays as it was, and nothing is
/// given out.
pub proof fn lemma_frame_goes_to_innermost(
    log: Option<LogLineModel>,
    levels: Seq<LevelModel>,
    lines: nat,
    f: FrameModel,
    line: Seq<char>,
)
    requires
        levels.len() >= 1,
    ensures
        ({
            let r = spec_step(StateModel::Accumulating { log, levels, lines }, LineModel::Frame(f), line);
            &&& r.1.len() == 0
            &&& r.0 matches StateModel::Accumulating { log: log2, levels: levels2, lines: lines2 }
            &&& log2 == log
            &&& lines2 == lines + 1
            &&& levels2.len() == levels.len()
            &&& levels2.last().exception == levels.last().exception
            &&& levels2.last().message == levels.last().message
            &&& levels2.last().frames == levels.last().frames.push(f)
            &&& forall|i: int| 0 <= i < levels.len() - 1 ==> levels2[i] == levels[i]
        }),
{
}

/// A `Caused by:` line opens a new, innermost exception with no frames
/// after the ones read so far; the frame lines after it belong to it, and
/// the exceptions before it keep their frames.
pub proof fn lemma_cause_then_frame(
    log: Option<LogLineModel>,
    levels: Seq<LevelModel>,
    lines: nat,
    exception: Seq<char>,
    message: Option<Seq<char>>,
    f: FrameModel,
    l1: Seq<char>,
    l2: Seq<char>,
)
    ensures
        ({
            let s1 = spec_step(
                StateModel::Accumulating { log, levels, lines },
                LineModel::CausedBy { exception, message },
                l1,
            ).0;
            spec_step(s1, LineModel::Frame(f), l2).0 == StateModel::Accumulating {
                log,
                levels: levels.push(LevelModel { exception, message, frames: seq![f] }),
                lines: lines + 2,
            }
        }),
{
    let lv = levels.push(new_level(exception, message));
    assert(lv.last().frames.push(f) =~= seq![f]);
    assert(add_frame_to_last(lv, f) =~= levels.push(LevelModel { exception, message, frames: seq![f] }));
}

/// With a target level, a log line passes exactly when it has that level,
/// a stack trace announced by a log line passes exactly when that line has
/// that level, a stack trace with no announcing line always passes, and
/// raw text never does.
pub proof fn lemma_level_filter(e: EventModel, t: LogLevel)
    ensures
        e matches EventModel::Line(l) ==> (spec_passes_level(e, t) <==> l.level == t),
        e matches EventModel::ErrorWithTrace { log: Some(l), .. } ==> (spec_passes_level(e, t) <==> l.level == t),
        e matches EventModel::ErrorWithTrace { log: None, .. } ==> spec_passes_level(e, t),
        e is Raw ==> !spec_passes_level(e, t),
{
}

// ---------------------------------------------------------------------------
// Implementation
// ---------------------------------------------------------------------------

/// One exception of a trace being built.
struct TraceLevel {
    exception: String,
    message: Option<String>,
    frames: Vec<StackFrame>,
}

spec fn level_view(l: TraceLevel) -> LevelModel {
    LevelModel { exception: l.exception@, message: opt_view(l.message), frames: frames_view(l.frames@) }
}

spec fn levels_view(v: Seq<TraceLevel>) -> Seq<LevelModel> {
    v.map_values(|l: TraceLevel| level_view(l))
}

/// A stack trace being read: its cause chain, outermost first, and the
/// lines read for it.
struct TraceBuilder {
    levels: Vec<TraceLevel>,
    lines_consumed: usize,
}

impl TraceBuilder {
    spec fn levels_model(&self) -> Seq<LevelModel> {
        levels_view(self.levels@)
    }

    fn new(exception: String, message: Option<String>, initial_lines: usize) -> (r: Self)
        ensures
            r.levels_model() == seq![new_level(exception@, opt_view(message))],
            r.levels@.len() == 1,
            r.lines_consumed == initial_lines,
    {
        let mut levels: Vec<TraceLevel> = Vec::new();
        let frames: Vec<StackFrame> = Vec::new();
        assert(frames_view(frames@) =~= Seq::<crate::models::stack_trace::FrameModel>::empty());
        levels.push(TraceLevel { exception, message, frames });
        let r = Self { levels, lines_consumed: initial_lines };
        assert(r.levels_model() =~= seq![new_level(exception@, opt_view(message))]);
        r
    }

    /// Adds a frame to the innermost exception.
    fn add_frame(&mut self, frame: StackFrame)
        requires
            old(self).levels@.len() >= 1,
            old(self).lines_consumed < usize::MAX,
        ensures
            final(self).levels_model() == add_frame_to_last(old(self).levels_model(), frame@),
            final(self).levels@.len() == old(self).levels@.len(),
            final(self).lines_consumed == old(self).lines_consumed + 1,
    {
        self.lines_consumed = self.lines_consumed + 1;
        let ghost before = self.levels@;
        let mut last = self.levels.pop().unwrap();
        last.frames.push(frame);
        self.levels.push(last);
        assert(frames_view(last.frames@) =~= frames_view(before.last().frames@).push(frame@));
        assert(self.levels_model() =~= add_frame_to_last(levels_view(before), frame@));
    }

    /// Adds the exception that caused the innermost one.
    fn add_caused_by(&mut self, exception: String, message: Option<String>)
        requires
            old(self).lines_consumed < usize::MAX,
        ensures
            final(self).levels_model() == old(self).levels_model().push(
                new_level(exception@, opt_view(message)),
            ),
            final(self).levels@.len() == old(self).levels@.len() + 1,
            final(self).lines_consumed == old(self).lines_consumed + 1,
    {
        self.lines_consumed = self.lines_consumed + 1;
        let ghost before = self.levels@;
        self.levels.push(TraceLevel { exception, message, frames: Vec::new() });
        assert(frames_view(Seq::<StackFrame>::empty()) =~= Seq::<crate::models::stack_trace::FrameModel>::empty());
        assert(self.levels_model() =~= levels_view(before).push(new_level(exception@, opt_view(message))));
    }

    /// Counts a `... N more` line.
    fn record_more(&mut self)
        requires
            old(self).lines_consumed < usize::MAX,
        ensures
            final(self).levels@ == old(self).levels@,
            final(self).lines_consumed == old(self).lines_consumed + 1,
    {
        self.lines_consumed = self.lines_consumed + 1;
    }

    /// The finished stack trace and the number of lines it spans.
    fn build(self) -> (r: (StackTraceBlock, usize))
        requires
            self.levels@.len() >= 1,
        ensures
            r.0@ == self.levels_model(),
            r.1 == self.lines_consumed,
    {
        let lines = self.lines_consumed;
        let ghost all = self.levels_model();
        let mut levels = self.levels;
        let mut cur: Option<Box<StackTraceBlock>> = None;
        while levels.len() > 0
            invariant
                levels@.len() <= all.len(),
                all.len() >= 1,
                levels_view(levels@) == all.take(levels@.len() as int),
                levels@.len() < all.len() ==> cur is Some,
                levels@.len() == all.len() ==> cur is None,
                cur matches Some(b) ==> trace_chain(*b) == all.skip(levels@.len() as int),
            decreases levels@.len(),
        {
            let ghost n = levels@.len();
            let lvl = levels.pop().unwrap();
            assert(levels_view(levels@) =~= all.take(n - 1));
            assert(level_view(lvl) == all[n - 1]) by {
                assert(levels_view(levels@.push(lvl))[n - 1] == all.take(n as int)[n - 1]);
            }
            let block = StackTraceBlock {
                primary_exception: lvl.exception,
                exception_message: lvl.message,
                frames: lvl.frames,
                caused_by: cur,
            };
            assert(top_level(block) == all[n - 1]);
            assert(trace_chain(block) =~= all.skip(n - 1));
            cur = Some(Box::new(block));
        }
        assert(all.skip(0) =~= all);
        let top = cur.unwrap();
        (*top, lines)
    }
}

/// What the parser holds between lines.
enum ParserState {
    Idle,
    PendingLog(LogLine),
    AccumulatingStackTrace { log: Option<LogLine>, builder: TraceBuilder },
}

spec fn state_view(s: ParserState) -> StateModel {
    match s {
        ParserState::Idle => StateModel::Idle,
        ParserState::PendingLog(l) => StateModel::PendingLog(l@),
        ParserState::AccumulatingStackTrace { log, builder } => StateModel::Accumulating {
            log: opt_log_view(log),
            levels: builder.levels_model(),
            lines: builder.lines_consumed as nat,
        },
    }
}

spec fn state_inv(s: ParserState) -> bool {
    match s {
        ParserState::AccumulatingStackTrace { builder, .. } => builder.levels@.len() >= 1,
        _ => true,
    }
}

/// Turns classified lines into events, holding back a log line until it is
/// known whether a stack trace follows it.
pub struct StateMachineParser {
    state: ParserState,
}

impl View for StateMachineParser {
    type V = StateModel;

    closed spec fn view(&self) -> StateModel {
        state_view(self.state)
    }
}

impl StateMachineParser {
    /// Whether the parser's internal state is consistent.
    pub closed spec fn wf(&self) -> bool {
        state_inv(self.state)
    }

    pub fn new() -> (r: Self)
        ensures
            r@ == StateModel::Idle,
            r.wf(),
    {
        Self { state: ParserState::Idle }
    }

    /// The number of lines read and not yet given out in an event.
    pub fn pending_line_count(&self) -> (r: usize)
        ensures
            r as nat == pending_lines(self@),
    {
        match &self.state {
            ParserState::Idle => 0,
            ParserState::PendingLog(_) => 1,
            ParserState::AccumulatingStackTrace { builder, .. } => builder.lines_consumed,
        }
    }

    /// Reads one line and gives out the events it completes.
    pub fn process_line(&mut self, line: &str) -> (events: Vec<ParsedEvent>)
        requires
            old(self).wf(),
            pending_lines(old(self)@) < usize::MAX,
        ensures
            final(self).wf(),
            (final(self)@, events_view(events@)) == spec_step(old(self)@, spec_parse_line(line@), line@),
    {
        let parsed = LineParser::parse(line);
        let mut events: Vec<ParsedEvent> = Vec::new();
        let mut st = ParserState::Idle;
        std::mem::swap(&mut st, &mut self.state);
        let ghost old_model = state_view(st);
        match st {
            ParserState::Idle => match parsed {
                ParsedLine::Log(log_line) => {
                    self.state = ParserState::PendingLog(log_line);
                },
                ParsedLine::ExceptionHeader { exception, message } => {
                    self.state = ParserState::AccumulatingStackTrace {
                        log: None,
                        builder: TraceBuilder::new(exception, message, 1),
                    };
                },
                ParsedLine::Text(text) => {
                    events.push(ParsedEvent::Raw(text));
                },
                _ => {
                    events.push(ParsedEvent::Raw(line.to_owned()));
                },
            },
            ParserState::PendingLog(prev_log) => match parsed {
                ParsedLine::ExceptionHeader { exception, message } => {
                    self.state = ParserState::AccumulatingStackTrace {
                        log: Some(prev_log),
                        builder: TraceBuilder::new(exception, message, 2),
                    };
                },
                ParsedLine::Frame(frame) => {
                    let message = copy_string(&prev_log.message);
                    let mut builder = TraceBuilder::new("java.lang.Exception".to_owned(), Some(message), 1);
                    let ghost fm = frame@;
                    builder.add_frame(frame);
                    assert(builder.levels_model() =~~= seq![
                        LevelModel {
                            exception: "java.lang.Exception"@,
                            message: Some(prev_log.message@),
                            frames: seq![fm],
                        },
                    ]);
                    self.state = ParserState::AccumulatingStackTrace { log: Some(prev_log), builder };
                },
                ParsedLine::Log(new_log) => {
                    events.push(ParsedEvent::Line(prev_log));
                    self.state = ParserState::PendingLog(new_log);
                },
                ParsedLine::Text(text) => {
                    events.push(ParsedEvent::Line(prev_log));
                    events.push(ParsedEvent::Raw(text));
                },
                _ => {
                    events.push(ParsedEvent::Line(prev_log));
                    events.push(ParsedEvent::Raw(line.to_owned()));
                },
            },
            ParserState::AccumulatingStackTrace { log, mut builder } => match parsed {
                ParsedLine::Frame(frame) => {
                    builder.add_frame(frame);
                    self.state = ParserState::AccumulatingStackTrace { log, builder };
                },
                ParsedLine::CausedBy { exception, message } => {
                    builder.add_caused_by(exception, message);
                    self.state = ParserState::AccumulatingStackTrace { log, builder };
                },
                ParsedLine::MoreFrames(_) => {
                    builder.record_more();
                    self.state = ParserState::AccumulatingStackTrace { log, builder };
                },
                ParsedLine::ExceptionHeader { exception, message } => {
                    builder.add_caused_by(exception, message);
                    self.state = ParserState::AccumulatingStackTrace { log, builder };
                },
                ParsedLine::Log(new_log) => {
                    let (trace, lines) = builder.build();
                    events.push(ParsedEvent::ErrorWithTrace { log, trace, line_count: lines });
                    self.state = ParserState::PendingLog(new_log);
                },
                ParsedLine::Text(text) => {
                    let (trace, lines) = builder.build();
                    events.push(ParsedEvent::ErrorWithTrace { log, trace, line_count: lines });
                    events.push(ParsedEvent::Raw(text));
                },
            },
        }
        assert(events_view(events@) =~= spec_step(old_model, spec_parse_line(line@), line@).1);
        events
    }

    /// Gives out whatever is still pending at the end of the input.
    pub fn finish(&mut self) -> (events: Vec<ParsedEvent>)
        requires
            old(self).wf(),
        ensures
            final(self).wf(),
            final(self)@ == StateModel::Idle,
            events_view(events@) == spec_finish(old(self)@),
    {
        let mut events: Vec<ParsedEvent> = Vec::new();
        let mut st = ParserState::Idle;
        std::mem::swap(&mut st, &mut self.state);
        let ghost old_model = state_view(st);
        match st {
            ParserState::Idle => {},
            ParserState::PendingLog(log) => {
                events.push(ParsedEvent::Line(log));
            },
            ParserState::AccumulatingStackTrace { log, builder } => {
                let (trace, lines) = builder.build();
                events.push(ParsedEvent::ErrorWithTrace { log, trace, line_count: lines });
            },
        }
        assert(events_view(events@) =~= spec_finish(old_model));
        events
    }
}

/// Whether an event is kept when only log lines of level `target` are
/// wanted: a log line of that level, or a stack trace whose announcing
/// log line (if it has one) has that level. Raw text is never kept.
pub open spec fn spec_passes_level(e: EventModel, target: LogLevel) -> bool {
    match e {
        EventModel::Line(l) => l.level == target,
        EventModel::ErrorWithTrace { log, .. } => match log {
            Some(l) => l.level == target,
            None => true,
        },
        EventModel::Raw(_) => false,
    }
}

/// The level filter applied to events before they are aggregated; with
/// no target every event passes.
pub fn passes_level_filter(event: &ParsedEvent, target: Option<LogLevel>) -> (r: bool)
    ensures
        r == match target {
            Some(t) => spec_passes_level(event@, t),
            None => true,
        },
{
    match target {
        None => true,
        Some(t) => match event {
            ParsedEvent::Line(l) => l.level == t,
            ParsedEvent::ErrorWithTrace { log, .. } => match log {
                Some(l) => l.level == t,
                None => true,
            },
            ParsedEvent::Raw(_) => false,
        },
    }
}

} // verus!
