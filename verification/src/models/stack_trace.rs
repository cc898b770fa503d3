//! Stack frames and stack traces with their chain of causes.

use vstd::prelude::*;
use crate::text::{copy_opt, copy_string, opt_view};

verus! {

/// One `at class.method(file:line)` line of a Java stack trace.
#[derive(Debug, Clone, PartialEq, Eq, Hash)]
pub struct StackFrame {
    pub class_name: String,
    pub method_name: String,
    pub file_name: Option<String>,
    pub line_number: Option<u32>,
    pub is_native: bool,
}

/// The content of a stack frame.
pub struct FrameModel {
    pub class_name: Seq<char>,
    pub method_name: Seq<char>,
    pub file_name: Option<Seq<char>>,
    pub line_number: Option<u32>,
    pub is_native: bool,
}

impl View for StackFrame {
    type V = FrameModel;

    open spec fn view(&self) -> FrameModel {
        FrameModel {
            class_name: self.class_name@,
            method_name: self.method_name@,
            file_name: opt_view(self.file_name),
            line_number: self.line_number,
            is_native: self.is_native,
        }
    }
}

/// The contents of a sequence of frames.
pub open spec fn frames_view(v: Seq<StackFrame>) -> Seq<FrameModel> {
    v.map_values(|f: StackFrame| f@)
}

impl StackFrame {
    pub fn new(
        class_name: String,
        method_name: String,
        file_name: Option<String>,
        line_number: Option<u32>,
        is_native: bool,
    ) -> (r: Self)
        ensures
            r.class_name == class_name,
            r.method_name == method_name,
            r.file_name == file_name,
            r.line_number == line_number,
            r.is_native == is_native,
    {
        Self { class_name, method_name, file_name, line_number, is_native }
    }

    /// A copy with the same content.
    pub fn duplicate(&self) -> (r: Self)
        ensures
            r@ == self@,
    {
        StackFrame {
            class_name: copy_string(&self.class_name),
            method_name: copy_string(&self.method_name),
            file_name: copy_opt(&self.file_name),
            line_number: self.line_number,
            is_native: self.is_native,
        }
    }
}

/// A copy of a vector of frames.
pub fn copy_frames(v: &Vec<StackFrame>) -> (r: Vec<StackFrame>)
    ensures
        frames_view(r@) == frames_view(v@),
{
    let mut r: Vec<StackFrame> = Vec::new();
    let mut i: usize = 0;
    while i < v.len()
        invariant
            i <= v@.len(),
            r@.len() == i,
            forall|k: int| 0 <= k < i ==> #[trigger] r@[k]@ == v@[k]@,
        decreases v@.len() - i,
    {
        r.push(v[i].duplicate());
        i = i + 1;
    }
    assert(frames_view(r@) =~= frames_view(v@));
    r
}

/// An exception with its message, its frames and the exception that
/// caused it.
#[derive(Debug, PartialEq, Eq)]
pub struct StackTraceBlock {
    pub primary_exception: String,
    pub exception_message: Option<String>,
    pub frames: Vec<StackFrame>,
    pub caused_by: Option<Box<StackTraceBlock>>,
}

/// One exception of a cause chain: its class, message and frames.
pub struct LevelModel {
    pub exception: Seq<char>,
    pub message: Option<Seq<char>>,
    pub frames: Seq<FrameModel>,
}

/// The exception of `t` itself, without its causes.
pub open spec fn top_level(t: StackTraceBlock) -> LevelModel {
    LevelModel {
        exception: t.primary_exception@,
        message: opt_view(t.exception_message),
        frames: frames_view(t.frames@),
    }
}

/// The chain of exceptions of `t`, outermost first, each followed by the
/// exception that caused it.
pub open spec fn trace_chain(t: StackTraceBlock) -> Seq<LevelModel>
    decreases t,
{
    match t.caused_by {
        Some(c) => seq![top_level(t)] + trace_chain(*c),
        None => seq![top_level(t)],
    }
}

/// The chain of exceptions that caused `t`, outermost first.
pub open spec fn cause_chain(t: StackTraceBlock) -> Seq<LevelModel> {
    match t.caused_by {
        Some(c) => trace_chain(*c),
        None => Seq::empty(),
    }
}

pub proof fn lemma_trace_chain_split(t: StackTraceBlock)
    ensures
        trace_chain(t) == seq![top_level(t)] + cause_chain(t),
{
    assert(trace_chain(t) =~= seq![top_level(t)] + cause_chain(t));
}

/// The second exception of a chain is the top of the cause.
pub proof fn lemma_cause_level(t: StackTraceBlock)
    ensures
        t.caused_by matches Some(c) ==> trace_chain(t).len() >= 2 && trace_chain(t)[1] == top_level(*c),
        t.caused_by is None ==> trace_chain(t).len() == 1,
{
    lemma_trace_chain_split(t);
    match t.caused_by {
        Some(c) => {
            lemma_trace_chain_nonempty(*c);
        },
        None => {},
    }
}

pub proof fn lemma_trace_chain_nonempty(t: StackTraceBlock)
    ensures
        trace_chain(t).len() >= 1,
        trace_chain(t)[0] == top_level(t),
{
}

impl View for StackTraceBlock {
    type V = Seq<LevelModel>;

    open spec fn view(&self) -> Seq<LevelModel> {
        trace_chain(*self)
    }
}

impl StackTraceBlock {
    pub fn new(
        primary_exception: String,
        exception_message: Option<String>,
        frames: Vec<StackFrame>,
        caused_by: Option<Box<StackTraceBlock>>,
    ) -> (r: Self)
        ensures
            r.primary_exception == primary_exception,
            r.exception_message == exception_message,
            r.frames == frames,
            r.caused_by == caused_by,
    {
        Self { primary_exception, exception_message, frames, caused_by }
    }

    /// A copy with the same content, causes included.
    pub fn duplicate(&self) -> (r: Self)
        ensures
            r@ == self@,
        decreases self,
    {
        let caused_by = match &self.caused_by {
            Some(c) => Some(Box::new((**c).duplicate())),
            None => None,
        };
        let r = StackTraceBlock {
            primary_exception: copy_string(&self.primary_exception),
            exception_message: copy_opt(&self.exception_message),
            frames: copy_frames(&self.frames),
            caused_by,
        };
        assert(top_level(r) == top_level(*self));
        r
    }
}

impl Clone for StackTraceBlock {
    fn clone(&self) -> (r: Self)
        ensures
            r@ == self@,
    {
        self.duplicate()
    }
}

} // verus!
