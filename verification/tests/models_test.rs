use logmorph::models::error_event::{AggregatedError, AttributionKind};
use logmorph::models::log_line::{LogLevel, LogLine};
use logmorph::models::stack_trace::{StackFrame, StackTraceBlock};

#[test]
fn test_log_level_parsing() {
    assert_eq!(LogLevel::from_str("INFO"), LogLevel::Info);
    assert_eq!(LogLevel::from_str("warn"), LogLevel::Warn);
    assert_eq!(LogLevel::from_str("SEVERE"), LogLevel::Error);
    assert_eq!(LogLevel::from_str("FATAL"), LogLevel::Error);
    assert_eq!(LogLevel::from_str("debug"), LogLevel::Debug);
    assert_eq!(LogLevel::from_str("trace"), LogLevel::Trace);
    assert_eq!(LogLevel::from_str("anything_else"), LogLevel::Unknown);
}

#[test]
fn test_log_level_as_str() {
    assert_eq!(LogLevel::Info.as_str(), "INFO");
    assert_eq!(LogLevel::Warn.as_str(), "WARN");
    assert_eq!(LogLevel::Error.as_str(), "ERROR");
}

#[test]
fn test_log_level_aliases_and_names() {
    assert_eq!(LogLevel::from_str("Warning"), LogLevel::Warn);
    assert_eq!(LogLevel::from_str("error"), LogLevel::Error);
    assert_eq!(LogLevel::from_str("fatal"), LogLevel::Error);
    assert_eq!(LogLevel::from_str(""), LogLevel::Unknown);
    assert_eq!(LogLevel::from_str(" INFO"), LogLevel::Unknown);
    assert_eq!(LogLevel::Debug.as_str(), "DEBUG");
    assert_eq!(LogLevel::Trace.as_str(), "TRACE");
    assert_eq!(LogLevel::Unknown.as_str(), "UNKNOWN");
}

#[test]
fn test_log_level_round_trip() {
    for level in [LogLevel::Info, LogLevel::Warn, LogLevel::Error, LogLevel::Debug, LogLevel::Trace, LogLevel::Unknown] {
        assert_eq!(LogLevel::from_str(level.as_str()), level);
    }
}

#[test]
fn test_attribution_labels() {
    assert_eq!(AttributionKind::Confirmed.as_str(), "Confirmed");
    assert_eq!(AttributionKind::DetectedFromStackFrame.as_str(), "Detected from stack frame");
    assert_eq!(AttributionKind::Ambiguous.as_str(), "Ambiguous");
    assert_eq!(AttributionKind::Unknown.as_str(), "Unknown");
}

#[test]
fn test_log_line_new_keeps_fields() {
    let l = LogLine::new(
        Some("10:00:00".to_string()),
        LogLevel::Warn,
        Some("Server thread".to_string()),
        None,
        "careful".to_string(),
    );
    assert_eq!(l.timestamp.as_deref(), Some("10:00:00"));
    assert_eq!(l.level, LogLevel::Warn);
    assert_eq!(l.thread_name.as_deref(), Some("Server thread"));
    assert_eq!(l.source, None);
    assert_eq!(l.message, "careful");
    assert_eq!(l.duplicate(), l);
}

#[test]
fn test_trace_clone_keeps_cause_chain() {
    let inner = StackTraceBlock::new("java.io.IOException".to_string(), None, vec![], None);
    let frame = StackFrame::new("com.a.B".to_string(), "run".to_string(), Some("B.java".to_string()), Some(7), false);
    let outer = StackTraceBlock::new(
        "java.lang.RuntimeException".to_string(),
        Some("wrapped".to_string()),
        vec![frame],
        Some(Box::new(inner)),
    );
    let copy = outer.clone();
    assert_eq!(copy, outer);
    assert_eq!(copy.caused_by.as_ref().unwrap().primary_exception, "java.io.IOException");
}

#[test]
fn test_record_occurrence_updates_last_seen() {
    let trace = StackTraceBlock::new("java.lang.Exception".to_string(), None, vec![], None);
    let mut e = AggregatedError::new(
        7,
        "java.lang.Exception".to_string(),
        None,
        None,
        None,
        AttributionKind::Unknown,
        None,
        Some("10:00:00".to_string()),
        trace,
    );
    assert_eq!(e.occurrences, 1);
    assert_eq!(e.first_seen.as_deref(), Some("10:00:00"));
    assert_eq!(e.last_seen.as_deref(), Some("10:00:00"));
    e.record_occurrence(Some("10:00:05".to_string()));
    assert_eq!(e.occurrences, 2);
    assert_eq!(e.first_seen.as_deref(), Some("10:00:00"));
    assert_eq!(e.last_seen.as_deref(), Some("10:00:05"));
    e.record_occurrence(None);
    assert_eq!(e.occurrences, 3);
    assert_eq!(e.last_seen.as_deref(), Some("10:00:05"));
}
