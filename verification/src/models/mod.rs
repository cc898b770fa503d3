//! The values the analysis works on: log lines, stack traces and the
//! aggregated errors built from them.

pub mod error_event;
pub mod log_line;
pub mod stack_trace;

pub use error_event::{AggregatedError, AttributionKind};
pub use log_line::{LogLevel, LogLine};
pub use stack_trace::{StackFrame, StackTraceBlock};
