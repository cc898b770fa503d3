//! The decisions of a streaming reader: when to ask for a line, what to
//! give out, and when the stream is over. Reading itself is done by the
//! caller, which hands each line (or the end of the input) to the reader.

use vstd::prelude::*;
use crate::parser::line_parser::spec_parse_line;
use crate::parser::state_machine::{
    event_lines, events_lines, events_view, lemma_finish_conserves_lines,
    lemma_step_conserves_lines, pending_lines, spec_finish, spec_step, EventModel, ParsedEvent,
    StateMachineParser, StateModel,
};
use crate::text::{chars_of, slice_chars, string_of};

verus! {

/// `s` without its trailing carriage returns and line feeds.
pub open spec fn strip_line_end(s: Seq<char>) -> Seq<char>
    decreases s.len(),
{
    if s.len() > 0 && (s.last() == '\r' || s.last() == '\n') {
        strip_line_end(s.drop_last())
    } else {
        s
    }
}

pub proof fn lemma_events_lines_concat(a: Seq<EventModel>, b: Seq<EventModel>)
    ensures
        events_lines(a + b) == events_lines(a) + events_lines(b),
    decreases b.len(),
{
    if b.len() == 0 {
        assert(a + b =~= a);
    } else {
        lemma_events_lines_concat(a, b.drop_last());
        assert((a + b).drop_last() =~= a + b.drop_last());
    }
}

/// What the reader asks of its caller, or gives it.
pub enum ReadStep {
    /// The next event.
    Emit(ParsedEvent),
    /// The stream is over.
    Done,
    /// The next line of input is needed.
    NeedLine,
}

/// A streaming reader over lines supplied one at a time: it parses each
/// line and queues the events it completes, and hands them out in order.
pub struct LogStreamReader {
    parser: StateMachineParser,
    event_queue: Vec<ParsedEvent>,
    finished: bool,
    lines_read: Ghost<nat>,
    lines_given: Ghost<nat>,
}

impl LogStreamReader {
    /// The parser's state.
    pub closed spec fn state(&self) -> StateModel {
        self.parser@
    }

    /// The events waiting to be handed out.
    pub closed spec fn queued(&self) -> Seq<EventModel> {
        events_view(self.event_queue@)
    }

    /// Whether the input is over.
    pub closed spec fn is_finished(&self) -> bool {
        self.finished
    }

    /// The number of lines handed to the reader so far.
    pub closed spec fn lines_read(&self) -> nat {
        self.lines_read@
    }

    /// The number of input lines that the events handed out stand for.
    pub closed spec fn lines_given(&self) -> nat {
        self.lines_given@
    }

    /// Consistency: every line read is accounted for exactly once, in an
    /// event handed out, an event queued, or the parser's pending state.
    pub closed spec fn wf(&self) -> bool {
        &&& self.parser.wf()
        &&& self.lines_given@ + events_lines(events_view(self.event_queue@)) + pending_lines(self.parser@)
            == self.lines_read@
    }

    pub fn new() -> (r: Self)
        ensures
            r.wf(),
            r.state() == StateModel::Idle,
            r.queued() == Seq::<EventModel>::empty(),
            !r.is_finished(),
            r.lines_read() == 0,
            r.lines_given() == 0,
    {
        let r = Self {
            parser: StateMachineParser::new(),
            event_queue: Vec::new(),
            finished: false,
            lines_read: Ghost(0),
            lines_given: Ghost(0),
        };
        assert(events_view(r.event_queue@) =~= Seq::<EventModel>::empty());
        r
    }

    /// The number of lines the parser holds back.
    pub fn pending_line_count(&self) -> (r: usize)
        ensures
            r as nat == pending_lines(self.state()),
    {
        self.parser.pending_line_count()
    }

    /// What to do next: hand out the first queued event, report the end
    /// of the stream, or ask for a line.
    pub fn next_step(&mut self) -> (r: ReadStep)
        requires
            old(self).wf(),
        ensures
            final(self).wf(),
            final(self).state() == old(self).state(),
            final(self).is_finished() == old(self).is_finished(),
            final(self).lines_read() == old(self).lines_read(),
            match r {
                ReadStep::Emit(e) => old(self).queued().len() > 0 && e@ == old(self).queued()[0]
                    && final(self).queued() == old(self).queued().drop_first()
                    && final(self).lines_given() == old(self).lines_given() + event_lines(e@),
                ReadStep::Done => old(self).queued().len() == 0 && old(self).is_finished()
                    && final(self).queued() == old(self).queued() && final(self).lines_given()
                    == old(self).lines_given(),
                ReadStep::NeedLine => old(self).queued().len() == 0 && !old(self).is_finished()
                    && final(self).queued() == old(self).queued() && final(self).lines_given()
                    == old(self).lines_given(),
            },
    {
        if self.event_queue.len() > 0 {
            let ghost q = events_view(self.event_queue@);
            let e = self.event_queue.remove(0);
            proof {
                assert(events_view(self.event_queue@) =~= q.drop_first());
                assert(q =~= seq![q[0]] + q.drop_first());
                lemma_events_lines_concat(seq![q[0]], q.drop_first());
                assert(seq![q[0]].drop_last() =~= Seq::<EventModel>::empty());
                assert(events_lines(seq![q[0]]) == event_lines(q[0])) by {
                    reveal_with_fuel(events_lines, 2);
                }
                assert(e@ == q[0]);
                self.lines_given@ = self.lines_given@ + event_lines(e@);
            }
            ReadStep::Emit(e)
        } else if self.finished {
            ReadStep::Done
        } else {
            ReadStep::NeedLine
        }
    }

    /// Takes one line as read (line endings are dropped) and queues the
    /// events it completes.
    pub fn push_line(&mut self, raw: &str)
        requires
            old(self).wf(),
            !old(self).is_finished(),
            pending_lines(old(self).state()) < usize::MAX,
        ensures
            final(self).wf(),
            !final(self).is_finished(),
            ({
                let step = spec_step(
                    old(self).state(),
                    spec_parse_line(strip_line_end(raw@)),
                    strip_line_end(raw@),
                );
                &&& final(self).state() == step.0
                &&& final(self).queued() == old(self).queued() + step.1
            }),
            final(self).lines_read() == old(self).lines_read() + 1,
            final(self).lines_given() == old(self).lines_given(),
    {
        let line = strip_line_end_str(raw);
        let ghost q = events_view(self.event_queue@);
        let ghost st = self.parser@;
        let mut events = self.parser.process_line(line.as_str());
        let ghost es = events_view(events@);
        self.event_queue.append(&mut events);
        proof {
            assert(events_view(self.event_queue@) =~= q + es);
            lemma_events_lines_concat(q, es);
            lemma_step_conserves_lines(st, spec_parse_line(line@), line@);
            self.lines_read@ = self.lines_read@ + 1;
        }
    }

    /// Takes the end of the input: whatever the parser still holds is
    /// queued, and the stream is over once the queue is empty.
    pub fn push_end(&mut self)
        requires
            old(self).wf(),
        ensures
            final(self).wf(),
            final(self).is_finished(),
            final(self).state() == StateModel::Idle,
            final(self).queued() == old(self).queued() + spec_finish(old(self).state()),
            final(self).lines_read() == old(self).lines_read(),
            final(self).lines_given() == old(self).lines_given(),
    {
        let ghost q = events_view(self.event_queue@);
        let ghost st = self.parser@;
        let mut trailing = self.parser.finish();
        let ghost es = events_view(trailing@);
        self.event_queue.append(&mut trailing);
        self.finished = true;
        proof {
            assert(events_view(self.event_queue@) =~= q + es);
            lemma_events_lines_concat(q, es);
            lemma_finish_conserves_lines(st);
        }
    }

    /// Takes a read failure: the stream is over, and what the parser holds
    /// is never given out.
    pub fn push_failure(&mut self)
        requires
            old(self).wf(),
        ensures
            final(self).wf(),
            final(self).is_finished(),
            final(self).state() == old(self).state(),
            final(self).lines_read() == old(self).lines_read(),
            final(self).lines_given() == old(self).lines_given(),
            final(self).queued() == old(self).queued(),
    {
        self.finished = true;
    }
}

impl LogStreamReader {
    /// Once the end of the input has been taken and every queued event
    /// handed out, the events handed out stand for exactly the lines read.
    pub proof fn lemma_all_lines_given(&self)
        requires
            self.wf(),
            self.state() == StateModel::Idle,
            self.queued().len() == 0,
        ensures
            self.lines_given() == self.lines_read(),
    {
        assert(events_lines(self.queued()) == 0);
    }
}

/// `raw` without its trailing `\r` and `\n` characters.
fn strip_line_end_str(raw: &str) -> (r: String)
    ensures
        r@ == strip_line_end(raw@),
{
    let v = chars_of(raw);
    let mut end: usize = v.len();
    assert(v@.take(end as int) =~= v@);
    while end > 0 && (v[end - 1] == '\r' || v[end - 1] == '\n')
        invariant
            end <= v@.len(),
            strip_line_end(v@) == strip_line_end(v@.take(end as int)),
        decreases end,
    {
        assert(v@.take(end as int).drop_last() =~= v@.take(end - 1));
        end = end - 1;
    }
    string_of(&slice_chars(&v, 0, end))
}

} // verus!
