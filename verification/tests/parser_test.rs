use logmorph::engine::AggregationEngine;
use logmorph::models::log_line::LogLevel;
use logmorph::parser::state_machine::passes_level_filter;
use logmorph::parser::{LineParser, LogStreamReader, ParsedEvent, ParsedLine, ReadStep, StateMachineParser};

fn read_all(text: &str) -> Vec<ParsedEvent> {
    let mut reader = LogStreamReader::new();
    let mut lines = text.lines();
    let mut events = Vec::new();
    loop {
        match reader.next_step() {
            ReadStep::Emit(e) => events.push(e),
            ReadStep::Done => break,
            ReadStep::NeedLine => match lines.next() {
                Some(l) => reader.push_line(l),
                None => reader.push_end(),
            },
        }
    }
    events
}

#[test]
fn test_parse_single_bracket_log() {
    let line = "[12:34:56 INFO]: Hello world";
    let parsed = LineParser::parse(line);
    match parsed {
        ParsedLine::Log(log) => {
            assert_eq!(log.timestamp.as_deref(), Some("12:34:56"));
            assert_eq!(log.level, LogLevel::Info);
            assert_eq!(log.message, "Hello world");
        }
        _ => panic!("Expected ParsedLine::Log"),
    }
}

#[test]
fn test_parse_multi_bracket_log() {
    let line = "[12:34:56] [Server thread/WARN] [MyPlugin]: Warning message";
    let parsed = LineParser::parse(line);
    match parsed {
        ParsedLine::Log(log) => {
            assert_eq!(log.timestamp.as_deref(), Some("12:34:56"));
            assert_eq!(log.level, LogLevel::Warn);
            assert_eq!(log.thread_name.as_deref(), Some("Server thread"));
            assert_eq!(log.source.as_deref(), Some("MyPlugin"));
            assert_eq!(log.message, "Warning message");
        }
        _ => panic!("Expected ParsedLine::Log"),
    }
}

#[test]
fn test_parse_stack_frame() {
    let line = "\tat com.example.plugin.Main.onEnable(Main.java:42)";
    let parsed = LineParser::parse(line);
    match parsed {
        ParsedLine::Frame(frame) => {
            assert_eq!(frame.class_name, "com.example.plugin.Main");
            assert_eq!(frame.method_name, "onEnable");
            assert_eq!(frame.file_name.as_deref(), Some("Main.java"));
            assert_eq!(frame.line_number, Some(42));
            assert!(!frame.is_native);
        }
        _ => panic!("Expected ParsedLine::Frame"),
    }
}

#[test]
fn test_parse_native_stack_frame() {
    let line = "\tat java.lang.ClassLoader.loadLibrary(Native Method)";
    let parsed = LineParser::parse(line);
    match parsed {
        ParsedLine::Frame(frame) => {
            assert_eq!(frame.class_name, "java.lang.ClassLoader");
            assert_eq!(frame.method_name, "loadLibrary");
            assert!(frame.is_native);
        }
        _ => panic!("Expected ParsedLine::Frame"),
    }
}

#[test]
fn test_parse_caused_by() {
    let line = "Caused by: java.io.IOException: Permission denied";
    let parsed = LineParser::parse(line);
    match parsed {
        ParsedLine::CausedBy { exception, message } => {
            assert_eq!(exception, "java.io.IOException");
            assert_eq!(message.as_deref(), Some("Permission denied"));
        }
        _ => panic!("Expected ParsedLine::CausedBy"),
    }
}

#[test]
fn test_parse_more_frames() {
    let line = "\t... 14 more";
    let parsed = LineParser::parse(line);
    assert_eq!(parsed, ParsedLine::MoreFrames(14));
}

#[test]
fn test_parse_edge_lines() {
    match LineParser::parse("   ") {
        ParsedLine::Text(t) => assert_eq!(t, "   "),
        _ => panic!("blank line is text"),
    }
    assert_eq!(LineParser::parse("\t... many more"), ParsedLine::MoreFrames(0));
    match LineParser::parse("hello there") {
        ParsedLine::Text(t) => assert_eq!(t, "hello there"),
        _ => panic!("plain text"),
    }
    match LineParser::parse("java.lang.IllegalStateException: Test exception") {
        ParsedLine::ExceptionHeader { exception, message } => {
            assert_eq!(exception, "java.lang.IllegalStateException");
            assert_eq!(message.as_deref(), Some("Test exception"));
        }
        _ => panic!("exception header"),
    }
    match LineParser::parse("Exception in thread \"main\" java.lang.NullPointerException") {
        ParsedLine::ExceptionHeader { exception, message } => {
            assert_eq!(exception, "java.lang.NullPointerException");
            assert_eq!(message, None);
        }
        _ => panic!("exception header with thread"),
    }
    match LineParser::parse("\tat com.a.B.c(Unknown Source)") {
        ParsedLine::Frame(f) => {
            assert_eq!(f.class_name, "com.a.B");
            assert_eq!(f.method_name, "c");
            assert_eq!(f.file_name, None);
            assert_eq!(f.line_number, None);
            assert!(!f.is_native);
        }
        _ => panic!("frame with unknown source"),
    }
    match LineParser::parse("at main(Main.java:1)") {
        ParsedLine::Frame(f) => {
            assert_eq!(f.class_name, "");
            assert_eq!(f.method_name, "main");
            assert_eq!(f.line_number, Some(1));
        }
        _ => panic!("frame without package"),
    }
    match LineParser::parse("[12:00:00 ERROR] [Foo]: bar") {
        ParsedLine::Log(l) => {
            assert_eq!(l.timestamp.as_deref(), Some("12:00:00 ERROR"));
            assert_eq!(l.level, LogLevel::Unknown);
            assert_eq!(l.source, None);
            assert_eq!(l.message, "bar");
        }
        _ => panic!("bracketed line"),
    }
}

#[test]
fn test_state_machine_groups_trace() {
    let mut p = StateMachineParser::new();
    assert!(p.process_line("[12:00:02 ERROR]: Line 3").is_empty());
    assert_eq!(p.pending_line_count(), 1);
    assert!(p.process_line("java.lang.IllegalStateException: Test exception").is_empty());
    assert!(p.process_line("\tat com.test.App.main(App.java:10)").is_empty());
    assert!(p.process_line("Caused by: java.io.IOException: disk").is_empty());
    assert!(p.process_line("\t... 3 more").is_empty());
    assert_eq!(p.pending_line_count(), 5);
    let events = p.process_line("plain words");
    assert_eq!(events.len(), 2);
    match &events[0] {
        ParsedEvent::ErrorWithTrace { log, trace, line_count } => {
            assert_eq!(*line_count, 5);
            assert_eq!(log.as_ref().unwrap().message, "Line 3");
            assert_eq!(trace.primary_exception, "java.lang.IllegalStateException");
            assert_eq!(trace.frames.len(), 1);
            assert_eq!(trace.caused_by.as_ref().unwrap().primary_exception, "java.io.IOException");
        }
        _ => panic!("expected a trace"),
    }
    assert_eq!(events[1], ParsedEvent::Raw("plain words".to_string()));
    assert!(p.finish().is_empty());
}

#[test]
fn test_state_machine_frame_after_log() {
    let mut p = StateMachineParser::new();
    assert!(p.process_line("[10:00:00 WARN]: oops").is_empty());
    assert!(p.process_line("\tat com.x.Y.z(Y.java:3)").is_empty());
    let events = p.finish();
    assert_eq!(events.len(), 1);
    match &events[0] {
        ParsedEvent::ErrorWithTrace { trace, line_count, .. } => {
            assert_eq!(trace.primary_exception, "java.lang.Exception");
            assert_eq!(trace.exception_message.as_deref(), Some("oops"));
            assert_eq!(*line_count, 2);
        }
        _ => panic!("expected a trace"),
    }
}

#[test]
fn test_stream_from_cursor() {
    let raw_log = "\
[12:00:00 INFO]: Line 1
[12:00:01 WARN]: Line 2
[12:00:02 ERROR]: Line 3
java.lang.IllegalStateException: Test exception
\tat com.test.App.main(App.java:10)
[12:00:03 INFO]: Line 4
";

    let mut engine = AggregationEngine::new();
    for event in read_all(raw_log) {
        engine.feed_event(event);
    }

    let stats = engine.stats();
    assert_eq!(stats.info_count, 2);
    assert_eq!(stats.warn_count, 1);
    assert_eq!(stats.error_count, 1);
    assert_eq!(stats.total_exceptions, 1);
    assert_eq!(stats.unique_signatures, 1);
}

#[test]
fn test_reader_accounts_for_every_line() {
    let raw_log = "\
[12:00:00 INFO]: a
garbage
\tat com.a.B.c(B.java:1)
[12:00:01 ERROR]: b
java.lang.RuntimeException: boom
\tat com.a.B.c(B.java:1)
Caused by: java.io.IOException
\t... 2 more
[12:00:02 INFO]: c";
    let events = read_all(raw_log);
    let mut total = 0usize;
    for e in &events {
        total += match e {
            ParsedEvent::Line(_) | ParsedEvent::Raw(_) => 1,
            ParsedEvent::ErrorWithTrace { line_count, .. } => *line_count,
        };
    }
    assert_eq!(total, 9);
    assert_eq!(events.len(), 5);
}

#[test]
fn test_reader_strips_line_endings() {
    let mut reader = LogStreamReader::new();
    reader.push_line("[12:00:00 INFO]: hello\r\n");
    reader.push_end();
    match reader.next_step() {
        ReadStep::Emit(ParsedEvent::Line(l)) => assert_eq!(l.message, "hello"),
        _ => panic!("expected a log line"),
    }
    assert!(matches!(reader.next_step(), ReadStep::Done));
}

#[test]
fn test_reader_failure_ends_stream() {
    let mut reader = LogStreamReader::new();
    assert!(matches!(reader.next_step(), ReadStep::NeedLine));
    reader.push_line("[12:00:00 INFO]: held back");
    reader.push_failure();
    assert!(matches!(reader.next_step(), ReadStep::Done));
}

#[test]
fn test_level_filter() {
    let events = read_all("[12:00:00 INFO]: a\n[12:00:01 WARN]: b\nnoise\njava.lang.OutOfMemoryError\n");
    assert_eq!(events.len(), 4);
    let kept: Vec<bool> = events.iter().map(|e| passes_level_filter(e, Some(LogLevel::Warn))).collect();
    assert_eq!(kept, vec![false, true, false, true]);
    assert!(events.iter().all(|e| passes_level_filter(e, None)));
}

#[test]
fn test_parse_number_overflow() {
    assert_eq!(LineParser::parse("\t... 99999999999999999999999 more"), ParsedLine::MoreFrames(0));
    match LineParser::parse("\tat a.B.c(B.java:99999999999)") {
        ParsedLine::Frame(f) => {
            assert_eq!(f.file_name.as_deref(), Some("B.java"));
            assert_eq!(f.line_number, None);
        }
        _ => panic!("expected a frame"),
    }
    match LineParser::parse("\tat a.B.c(B.java:4294967295)") {
        ParsedLine::Frame(f) => assert_eq!(f.line_number, Some(4294967295)),
        _ => panic!("expected a frame"),
    }
}
