use logmorph::engine::MinecraftRules;
use logmorph::models::log_line::LogLevel;
use logmorph::parser::{LineParser, ParsedLine};

fn groups(v: &[Option<&str>]) -> Vec<Option<String>> {
    v.iter().map(|o| o.map(|s| s.to_string())).collect()
}

#[test]
fn test_event_match_builder() {
    let g = groups(&[Some("whole"), Some("BlockBreakEvent"), Some("WorldGuard"), Some("7.0.9")]);
    let info = MinecraftRules::from_event_match(&g);
    assert_eq!(info.plugin_name, "WorldGuard");
    assert_eq!(info.plugin_version.as_deref(), Some("7.0.9"));
    assert_eq!(info.event_name.as_deref(), Some("BlockBreakEvent"));
}

#[test]
fn test_task_match_builder() {
    let g = groups(&[Some("whole"), Some("Essentials"), Some("2.19.0"), Some("42")]);
    let info = MinecraftRules::from_task_match(&g);
    assert_eq!(info.plugin_name, "Essentials");
    assert_eq!(info.plugin_version.as_deref(), Some("2.19.0"));
    assert_eq!(info.event_name.as_deref(), Some("Task #42"));
    let missing = MinecraftRules::from_task_match(&groups(&[Some("whole"), Some("P"), None, None]));
    assert_eq!(missing.plugin_version, None);
    assert_eq!(missing.event_name, None);
}

#[test]
fn test_prefix_match_builder() {
    let info = MinecraftRules::from_prefix_match(&groups(&[Some("[LuckPerms] hi"), Some("LuckPerms"), Some("hi")]));
    assert_eq!(info.plugin_name, "LuckPerms");
    assert_eq!(info.plugin_version, None);
    assert_eq!(info.event_name, None);
}

#[test]
fn test_frame_match_builder() {
    let f = LineParser::frame_from_match(&groups(&[
        Some("at a.b.C.d(C.java:12)"),
        Some("a.b.C.d"),
        Some("C.java"),
        Some("12"),
        None,
        None,
    ]));
    assert_eq!(f.class_name, "a.b.C");
    assert_eq!(f.method_name, "d");
    assert_eq!(f.file_name.as_deref(), Some("C.java"));
    assert_eq!(f.line_number, Some(12));
    assert!(!f.is_native);
    let n = LineParser::frame_from_match(&groups(&[Some("x"), Some("run"), None, None, Some("Native Method"), None]));
    assert_eq!(n.class_name, "");
    assert_eq!(n.method_name, "run");
    assert!(n.is_native);
    let big = LineParser::frame_from_match(&groups(&[Some("x"), Some("a.b"), Some("F"), Some("4294967296"), None, None]));
    assert_eq!(big.line_number, None);
}

#[test]
fn test_log_match_builders() {
    let multi = LineParser::multi_bracket_from_match(&groups(&[
        Some("whole"),
        Some("10:00:00"),
        None,
        Some("warning"),
        None,
        Some("text"),
    ]));
    assert_eq!(multi.timestamp.as_deref(), Some("10:00:00"));
    assert_eq!(multi.thread_name, None);
    assert_eq!(multi.level, LogLevel::Warn);
    assert_eq!(multi.message, "text");
    let single = LineParser::single_bracket_from_match(&groups(&[Some("whole"), Some("t"), None, Some("Src"), None]));
    assert_eq!(single.level, LogLevel::Unknown);
    assert_eq!(single.source.as_deref(), Some("Src"));
    assert_eq!(single.message, "");
}

#[test]
fn test_header_match_builders() {
    let g = groups(&[Some("whole"), Some("java.io.IOException"), None]);
    assert_eq!(
        LineParser::caused_by_from_match(&g),
        ParsedLine::CausedBy { exception: "java.io.IOException".to_string(), message: None }
    );
    assert_eq!(
        LineParser::exception_header_from_match(&g),
        ParsedLine::ExceptionHeader { exception: "java.io.IOException".to_string(), message: None }
    );
}
