//! Errors aggregated under one signature.

use vstd::prelude::*;
use crate::models::stack_trace::{FrameModel, LevelModel, StackFrame, StackTraceBlock};
use crate::text::{copy_opt, opt_view};

verus! {

/// How an error was tied to a plugin.
#[derive(Debug, Clone, Copy, PartialEq, Eq, Structural)]
pub enum AttributionKind {
    /// Named by a Minecraft failure header or by the logger's name.
    Confirmed,
    /// Inferred from the single plugin namespace among the non-framework
    /// frames of the trace.
    DetectedFromStackFrame,
    /// Several plugin namespaces appear among the non-framework frames.
    Ambiguous,
    /// No plugin frame and no header name the plugin.
    Unknown,
}

/// The label under which an attribution is shown.
pub open spec fn attribution_label(a: AttributionKind) -> Seq<char> {
    match a {
        AttributionKind::Confirmed => "Confirmed"@,
        AttributionKind::DetectedFromStackFrame => "Detected from stack frame"@,
        AttributionKind::Ambiguous => "Ambiguous"@,
        AttributionKind::Unknown => "Unknown"@,
    }
}

impl AttributionKind {
    /// The label under which the attribution is shown.
    pub fn as_str(&self) -> (r: &'static str)
        ensures
            r@ == attribution_label(*self),
    {
        match self {
            AttributionKind::Confirmed => "Confirmed",
            AttributionKind::DetectedFromStackFrame => "Detected from stack frame",
            AttributionKind::Ambiguous => "Ambiguous",
            AttributionKind::Unknown => "Unknown",
        }
    }
}

/// All occurrences of one error signature.
#[derive(Debug, Clone, PartialEq, Eq)]
pub struct AggregatedError {
    pub signature_hash: u64,
    pub primary_exception: String,
    pub exception_message: Option<String>,
    pub plugin_name: Option<String>,
    pub event_name: Option<String>,
    pub attribution: AttributionKind,
    pub top_plugin_frame: Option<StackFrame>,
    pub occurrences: usize,
    pub first_seen: Option<String>,
    pub last_seen: Option<String>,
    pub sample_trace: StackTraceBlock,
}

/// The content of an aggregated error.
pub struct ErrorModel {
    pub signature_hash: u64,
    pub primary_exception: Seq<char>,
    pub exception_message: Option<Seq<char>>,
    pub plugin_name: Option<Seq<char>>,
    pub event_name: Option<Seq<char>>,
    pub attribution: AttributionKind,
    pub top_plugin_frame: Option<FrameModel>,
    pub occurrences: nat,
    pub first_seen: Option<Seq<char>>,
    pub last_seen: Option<Seq<char>>,
    pub sample_trace: Seq<LevelModel>,
}

/// The content of an optional frame.
pub open spec fn opt_frame_view(f: Option<StackFrame>) -> Option<FrameModel> {
    match f {
        Some(x) => Some(x@),
        None => None,
    }
}

impl View for AggregatedError {
    type V = ErrorModel;

    open spec fn view(&self) -> ErrorModel {
        ErrorModel {
            signature_hash: self.signature_hash,
            primary_exception: self.primary_exception@,
            exception_message: opt_view(self.exception_message),
            plugin_name: opt_view(self.plugin_name),
            event_name: opt_view(self.event_name),
            attribution: self.attribution,
            top_plugin_frame: opt_frame_view(self.top_plugin_frame),
            occurrences: self.occurrences as nat,
            first_seen: opt_view(self.first_seen),
            last_seen: opt_view(self.last_seen),
            sample_trace: self.sample_trace@,
        }
    }
}

impl AggregatedError {
    /// The first occurrence of a signature, seen at `timestamp`.
    pub fn new(
        signature_hash: u64,
        primary_exception: String,
        exception_message: Option<String>,
        plugin_name: Option<String>,
        event_name: Option<String>,
        attribution: AttributionKind,
        top_plugin_frame: Option<StackFrame>,
        timestamp: Option<String>,
        sample_trace: StackTraceBlock,
    ) -> (r: Self)
        ensures
            r.signature_hash == signature_hash,
            r.primary_exception == primary_exception,
            r.exception_message == exception_message,
            r.plugin_name == plugin_name,
            r.event_name == event_name,
            r.attribution == attribution,
            r.top_plugin_frame == top_plugin_frame,
            r.occurrences == 1,
            opt_view(r.first_seen) == opt_view(timestamp),
            opt_view(r.last_seen) == opt_view(timestamp),
            r.sample_trace == sample_trace,
    {
        let first_seen = copy_opt(&timestamp);
        Self {
            signature_hash,
            primary_exception,
            exception_message,
            plugin_name,
            event_name,
            attribution,
            top_plugin_frame,
            occurrences: 1,
            first_seen,
            last_seen: timestamp,
            sample_trace,
        }
    }

    /// Counts one more occurrence; a known `timestamp` becomes the last
    /// time the error was seen.
    pub fn record_occurrence(&mut self, timestamp: Option<String>)
        requires
            old(self).occurrences < usize::MAX,
        ensures
            final(self).occurrences == old(self).occurrences + 1,
            final(self).last_seen == (if timestamp is Some {
                timestamp
            } else {
                old(self).last_seen
            }),
            final(self).signature_hash == old(self).signature_hash,
            final(self).primary_exception == old(self).primary_exception,
            final(self).exception_message == old(self).exception_message,
            final(self).plugin_name == old(self).plugin_name,
            final(self).event_name == old(self).event_name,
            final(self).attribution == old(self).attribution,
            final(self).top_plugin_frame == old(self).top_plugin_frame,
            final(self).first_seen == old(self).first_seen,
            final(self).sample_trace == old(self).sample_trace,
    {
        self.occurrences = self.occurrences + 1;
        if timestamp.is_some() {
            self.last_seen = timestamp;
        }
    }

    /// A copy with the same content.
    pub fn duplicate(&self) -> (r: Self)
        ensures
            r@ == self@,
    {
        let top_plugin_frame = match &self.top_plugin_frame {
            Some(f) => Some(f.duplicate()),
            None => None,
        };
        AggregatedError {
            signature_hash: self.signature_hash,
            primary_exception: self.primary_exception.clone(),
            exception_message: copy_opt(&self.exception_message),
            plugin_name: copy_opt(&self.plugin_name),
            event_name: copy_opt(&self.event_name),
            attribution: self.attribution,
            top_plugin_frame,
            occurrences: self.occurrences,
            first_seen: copy_opt(&self.first_seen),
            last_seen: copy_opt(&self.last_seen),
            sample_trace: self.sample_trace.duplicate(),
        }
    }
}

} // verus!
