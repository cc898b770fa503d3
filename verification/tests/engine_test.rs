use logmorph::engine::fingerprint::{normalize_dynamic_noise, ErrorSignatureKey};
use logmorph::engine::frame_filter::{namespace_of_class, FrameKind};
use logmorph::engine::ordering::order_by_count;
use logmorph::engine::{AggregationEngine, FingerprintGenerator, FrameFilter, MinecraftRules};
use logmorph::models::error_event::AttributionKind;
use logmorph::models::log_line::{LogLevel, LogLine};
use logmorph::models::stack_trace::{StackFrame, StackTraceBlock};
use logmorph::parser::{LogStreamReader, ParsedEvent, ReadStep};
use std::collections::hash_map::DefaultHasher;
use std::hash::{Hash, Hasher};

fn feed_text(engine: &mut AggregationEngine, text: &str) {
    let mut reader = LogStreamReader::new();
    let mut lines = text.lines();
    loop {
        match reader.next_step() {
            ReadStep::Emit(e) => engine.feed_event(e),
            ReadStep::Done => break,
            ReadStep::NeedLine => match lines.next() {
                Some(l) => reader.push_line(l),
                None => reader.push_end(),
            },
        }
    }
}

fn bare_trace(exception: &str, message: &str) -> StackTraceBlock {
    StackTraceBlock::new(exception.to_string(), Some(message.to_string()), vec![], None)
}

fn frame(class: &str, method: &str, line: u32) -> StackFrame {
    StackFrame::new(class.to_string(), method.to_string(), None, Some(line), false)
}

// Aggregation

#[test]
fn test_max_signatures_cap() {
    let mut engine = AggregationEngine::with_max_signatures(Some(2));

    for i in 0..5 {
        let trace = StackTraceBlock::new(
            format!("com.example.Exception{}", i),
            Some(format!("Error number {}", i)),
            vec![],
            None,
        );
        engine.feed_event(ParsedEvent::ErrorWithTrace {
            log: None,
            trace,
            line_count: 2,
        });
    }

    assert_eq!(engine.stats().unique_signatures, 2);
    assert_eq!(engine.stats().dropped_signatures, 3);
    assert_eq!(engine.stats().total_exceptions, 5);
}

#[test]
fn test_dropped_signatures_do_not_pollute_plugin_counts() {
    let mut engine = AggregationEngine::with_max_signatures(Some(1));
    engine.register_plugin("PluginA");
    engine.register_plugin("PluginB");

    let trace1 = StackTraceBlock::new(
        "com.plugina.ExceptionA".to_string(),
        Some("First error".to_string()),
        vec![],
        None,
    );
    let log1 = LogLine {
        timestamp: None,
        thread_name: None,
        level: LogLevel::Error,
        source: Some("PluginA".to_string()),
        message: "First error".to_string(),
    };
    engine.feed_event(ParsedEvent::ErrorWithTrace {
        log: Some(log1),
        trace: trace1,
        line_count: 2,
    });

    let trace2 = StackTraceBlock::new(
        "com.pluginb.ExceptionB".to_string(),
        Some("Second error".to_string()),
        vec![],
        None,
    );
    let log2 = LogLine {
        timestamp: None,
        thread_name: None,
        level: LogLevel::Error,
        source: Some("PluginB".to_string()),
        message: "Second error".to_string(),
    };
    engine.feed_event(ParsedEvent::ErrorWithTrace {
        log: Some(log2),
        trace: trace2,
        line_count: 2,
    });

    assert_eq!(engine.stats().unique_signatures, 1);
    assert_eq!(engine.stats().dropped_signatures, 1);
    let summary = engine.plugin_summary();
    assert_eq!(summary.len(), 1);
    assert_eq!(summary[0].0, "PluginA");
    assert_eq!(*summary[0].1, 1);
}

#[test]
fn test_max_signatures_order_retention() {
    let mut engine = AggregationEngine::with_max_signatures(Some(2));

    let trace1 = StackTraceBlock::new(
        "com.plugin.Exception1".to_string(),
        Some("Error 1".to_string()),
        vec![],
        None,
    );
    let trace2 = StackTraceBlock::new(
        "com.plugin.Exception2".to_string(),
        Some("Error 2".to_string()),
        vec![],
        None,
    );
    let trace3 = StackTraceBlock::new(
        "com.plugin.Exception3".to_string(),
        Some("Error 3".to_string()),
        vec![],
        None,
    );

    engine.feed_event(ParsedEvent::ErrorWithTrace {
        log: None,
        trace: trace1.clone(),
        line_count: 1,
    });
    engine.feed_event(ParsedEvent::ErrorWithTrace {
        log: None,
        trace: trace2.clone(),
        line_count: 1,
    });
    engine.feed_event(ParsedEvent::ErrorWithTrace {
        log: None,
        trace: trace3.clone(),
        line_count: 1,
    });

    assert_eq!(engine.stats().unique_signatures, 2);
    assert_eq!(engine.stats().dropped_signatures, 1);

    engine.feed_event(ParsedEvent::ErrorWithTrace {
        log: None,
        trace: trace1,
        line_count: 1,
    });

    let errors = engine.aggregated_errors();
    assert_eq!(errors.len(), 2);
    let first = errors.iter().find(|e| e.primary_exception == "com.plugin.Exception1").unwrap();
    assert_eq!(first.occurrences, 2);
}

#[test]
fn test_attribution_ambiguous_vs_detected() {
    let frame_a = StackFrame::new(
        "com.pluginA.listener.MyListener".to_string(),
        "onEvent".to_string(),
        None,
        Some(10),
        false,
    );
    let frame_b = StackFrame::new(
        "com.pluginB.manager.Manager".to_string(),
        "execute".to_string(),
        None,
        Some(20),
        false,
    );

    let trace_ambiguous = StackTraceBlock::new(
        "java.lang.NullPointerException".to_string(),
        None,
        vec![frame_a.clone(), frame_b],
        None,
    );
    let mut engine = AggregationEngine::new();
    engine.feed_event(ParsedEvent::ErrorWithTrace {
        log: None,
        trace: trace_ambiguous,
        line_count: 2,
    });

    let errors = engine.aggregated_errors();
    assert_eq!(errors.len(), 1);
    assert_eq!(errors[0].attribution, AttributionKind::Ambiguous);

    let trace_single = StackTraceBlock::new(
        "java.lang.IllegalStateException".to_string(),
        None,
        vec![frame_a],
        None,
    );
    let mut engine2 = AggregationEngine::new();
    engine2.feed_event(ParsedEvent::ErrorWithTrace {
        log: None,
        trace: trace_single,
        line_count: 1,
    });
    let errors2 = engine2.aggregated_errors();
    assert_eq!(errors2.len(), 1);
    assert_eq!(errors2[0].attribution, AttributionKind::DetectedFromStackFrame);
}

#[test]
fn test_repeated_error_inline_deduplication() {
    let mut text = String::new();
    for s in 0..5 {
        text.push_str(&format!("[10:00:0{} ERROR]: Something broke\n", s));
        text.push_str("java.lang.NullPointerException: null\n");
        text.push_str("\tat com.example.myplugin.Foo.bar(Foo.java:10)\n");
    }
    let mut engine = AggregationEngine::new();
    feed_text(&mut engine, &text);

    let stats = engine.stats();
    assert_eq!(stats.total_lines, 15);
    assert_eq!(stats.total_exceptions, 5);
    assert_eq!(stats.unique_signatures, 1);
    assert_eq!(stats.error_count, 5);

    let errors = engine.aggregated_errors();
    assert_eq!(errors.len(), 1);
    assert_eq!(errors[0].occurrences, 5);
    assert_eq!(errors[0].first_seen.as_deref(), Some("10:00:00"));
    assert_eq!(errors[0].last_seen.as_deref(), Some("10:00:04"));
    assert_eq!(errors[0].attribution, AttributionKind::DetectedFromStackFrame);
    assert_eq!(errors[0].plugin_name.as_deref(), Some("myplugin"));

    let summary = engine.plugin_summary();
    assert_eq!(summary.len(), 1);
    assert_eq!(summary[0].0, "myplugin");
    assert_eq!(*summary[0].1, 5);
}

#[test]
fn test_confirmed_attribution_from_event_message() {
    let text = "\
[10:00:00 ERROR]: Could not pass event PlayerMoveEvent to MyCustomPlugin v1.0.0
org.bukkit.event.EventException: null
\tat org.bukkit.plugin.java.JavaPluginLoader$1.execute(JavaPluginLoader.java:306)
\tat com.example.myplugin.MoveListener.onMove(MoveListener.java:25)
Caused by: java.lang.NullPointerException
\tat com.example.myplugin.MoveListener.onMove(MoveListener.java:25)
\t... 3 more
";
    let mut engine = AggregationEngine::new();
    feed_text(&mut engine, text);
    assert_eq!(engine.stats().total_lines, 7);
    assert_eq!(engine.stats().total_exceptions, 1);
    let errors = engine.aggregated_errors();
    assert_eq!(errors.len(), 1);
    let err = errors[0];
    assert_eq!(err.plugin_name.as_deref(), Some("MyCustomPlugin"));
    assert_eq!(err.event_name.as_deref(), Some("PlayerMoveEvent"));
    assert_eq!(err.primary_exception, "org.bukkit.event.EventException");
    assert_eq!(err.attribution, AttributionKind::Confirmed);
    let top = err.top_plugin_frame.as_ref().unwrap();
    assert!(top.class_name.starts_with("com.example.myplugin"));
    assert!(!FrameFilter::is_framework_frame(top));
    let caused = err.sample_trace.caused_by.as_ref().unwrap();
    assert_eq!(caused.primary_exception, "java.lang.NullPointerException");
}

#[test]
fn test_nested_causes_inline() {
    let text = "\
java.lang.RuntimeException: outer
\tat com.a.b.C.d(C.java:1)
Caused by: java.io.IOException: middle
\tat com.a.b.C.e(C.java:2)
Caused by: java.lang.NullPointerException
\t... 1 more
";
    let mut engine = AggregationEngine::new();
    feed_text(&mut engine, text);
    let errors = engine.aggregated_errors();
    let err = errors[0];
    assert_eq!(err.primary_exception, "java.lang.RuntimeException");
    let c1 = err.sample_trace.caused_by.as_ref().unwrap();
    assert_eq!(c1.primary_exception, "java.io.IOException");
    let c2 = c1.caused_by.as_ref().unwrap();
    assert_eq!(c2.primary_exception, "java.lang.NullPointerException");
    assert!(c2.caused_by.is_none());
    assert_eq!(engine.stats().total_lines, 6);
}

#[test]
fn test_known_plugin_named_in_frame() {
    let mut engine = AggregationEngine::new();
    engine.register_plugin("  ");
    engine.register_plugin(" MyPlugin ");
    let trace = StackTraceBlock::new(
        "java.lang.IllegalStateException".to_string(),
        None,
        vec![frame("com.example.myplugin.Foo", "bar", 3)],
        None,
    );
    engine.feed_event(ParsedEvent::ErrorWithTrace { log: None, trace, line_count: 2 });
    let errors = engine.aggregated_errors();
    assert_eq!(errors[0].plugin_name.as_deref(), Some("MyPlugin"));
    assert_eq!(errors[0].attribution, AttributionKind::DetectedFromStackFrame);
    let report = engine.to_report();
    assert_eq!(report.top_plugins.len(), 1);
    assert_eq!(report.top_plugins[0].plugin, "MyPlugin");
    assert_eq!(report.top_plugins[0].count, 1);
}

#[test]
fn test_errors_sorted_by_occurrences() {
    let mut engine = AggregationEngine::new();
    let counts = [1usize, 3, 2, 3];
    for (i, n) in counts.iter().enumerate() {
        for _ in 0..*n {
            engine.feed_event(ParsedEvent::ErrorWithTrace {
                log: None,
                trace: bare_trace(&format!("com.x.E{}", i), "m"),
                line_count: 1,
            });
        }
    }
    let order: Vec<String> = engine.aggregated_errors().iter().map(|e| e.primary_exception.clone()).collect();
    assert_eq!(order, vec!["com.x.E1", "com.x.E3", "com.x.E2", "com.x.E0"]);
    let report = engine.to_report();
    assert_eq!(report.stats, *engine.stats());
    let report_order: Vec<String> = report.aggregated_errors.iter().map(|e| e.primary_exception.clone()).collect();
    assert_eq!(report_order, order);
    assert_eq!(engine.stats().total_exceptions, 9);
    assert_eq!(engine.stats().unique_signatures, 4);
}

#[test]
fn test_plugin_summary_sorted_by_count() {
    let mut engine = AggregationEngine::new();
    for (plugin, n) in [("Alpha", 1usize), ("Beta", 3), ("Gamma", 2)] {
        for k in 0..n {
            let log = LogLine::new(None, LogLevel::Error, None, Some(plugin.to_string()), format!("e{}", k));
            engine.feed_event(ParsedEvent::ErrorWithTrace {
                log: Some(log),
                trace: bare_trace("java.lang.Exception", "x"),
                line_count: 2,
            });
        }
    }
    let summary: Vec<(String, usize)> = engine.plugin_summary().iter().map(|(p, c)| ((*p).clone(), **c)).collect();
    assert_eq!(
        summary,
        vec![("Beta".to_string(), 3), ("Gamma".to_string(), 2), ("Alpha".to_string(), 1)]
    );
    assert_eq!(engine.stats().error_count, 6);
    assert_eq!(engine.stats().total_log_messages, 6);
}

#[test]
fn test_line_and_raw_events_counted() {
    let mut engine = AggregationEngine::new();
    engine.feed_event(ParsedEvent::Raw("noise".to_string()));
    engine.feed_event(ParsedEvent::Line(LogLine::new(None, LogLevel::Debug, None, None, "d".to_string())));
    engine.feed_event(ParsedEvent::Line(LogLine::new(None, LogLevel::Trace, None, None, "t".to_string())));
    let s = engine.stats();
    assert_eq!(s.total_lines, 3);
    assert_eq!(s.total_log_messages, 2);
    assert_eq!(s.debug_count, 1);
    assert_eq!(s.info_count + s.warn_count + s.error_count, 0);
    assert_eq!(s.total_exceptions, 0);
    assert!(engine.aggregated_errors().is_empty());
}

#[test]
fn test_order_by_count() {
    assert_eq!(order_by_count(&vec![2, 5, 2, 7]), vec![3, 1, 0, 2]);
    assert_eq!(order_by_count(&vec![]), Vec::<usize>::new());
}

// Fingerprints

#[test]
fn test_signature_deterministic() {
    let frame = StackFrame::new(
        "com.example.Test".to_string(),
        "doSomething".to_string(),
        Some("Test.java".to_string()),
        Some(10),
        false,
    );

    let hash1 = FingerprintGenerator::generate_signature(
        "java.lang.NullPointerException",
        Some("PluginA"),
        Some(&frame),
    );

    let hash2 = FingerprintGenerator::generate_signature(
        "java.lang.NullPointerException",
        Some("PluginA"),
        Some(&frame),
    );

    assert_eq!(hash1, hash2);

    let hash3 = FingerprintGenerator::generate_signature(
        "java.lang.IllegalArgumentException",
        Some("PluginA"),
        Some(&frame),
    );

    assert_ne!(hash1, hash3);
}

#[test]
fn test_signature_matches_std_hashing() {
    let frame = StackFrame::new(
        "com.example.Test".to_string(),
        "doSomething".to_string(),
        Some("Test.java".to_string()),
        Some(10),
        false,
    );
    let mut h = DefaultHasher::new();
    "java.lang.NullPointerException".hash(&mut h);
    "PluginA".hash(&mut h);
    frame.class_name.hash(&mut h);
    frame.method_name.hash(&mut h);
    frame.file_name.as_ref().unwrap().hash(&mut h);
    frame.line_number.unwrap().hash(&mut h);
    let expected = h.finish();
    let got = FingerprintGenerator::generate_signature("java.lang.NullPointerException", Some("PluginA"), Some(&frame));
    assert_eq!(got, expected);

    let mut h2 = DefaultHasher::new();
    "java.lang.Error".hash(&mut h2);
    assert_eq!(FingerprintGenerator::generate_signature("java.lang.Error", None, None), h2.finish());
}

#[test]
fn test_dynamic_noise_normalization() {
    let msg = "Player uuid 12345678-abcd-1234-ef01-123456789abc failed at x=100.5, y=64.0, z=-200.0 with obj 0x7f9a12bc4500 at 2026-09-17 10:00:00";
    let normalized = normalize_dynamic_noise(msg);
    assert!(normalized.contains("<UUID>"));
    assert!(normalized.contains("<COORD>"));
    assert!(normalized.contains("<ADDR>"));
    assert!(normalized.contains("<TIME>"));
}

#[test]
fn test_semantic_numbers_preserved() {
    let msg = "HTTP 500 Internal Server Error connecting to MySQL at 127.0.0.1:3306 on plugin v1.20.4 (code 1045)";
    let normalized = normalize_dynamic_noise(msg);
    assert!(normalized.contains("HTTP 500"));
    assert!(normalized.contains("3306"));
    assert!(normalized.contains("v1.20.4"));
    assert!(normalized.contains("code 1045"));
}

#[test]
fn test_dynamic_normalization_with_semantic_numbers() {
    let msg = "Failed to connect to 127.0.0.1:25565 via HTTP 500 on v1.20.4 for player aaaaaaaa-bbbb-cccc-dddd-eeeeeeeeeeee at x=10.5, y=64.0, z=-50.0 (error 1045)";
    let normalized = normalize_dynamic_noise(msg);

    assert!(normalized.contains("HTTP 500"));
    assert!(normalized.contains("25565"));
    assert!(normalized.contains("v1.20.4"));
    assert!(normalized.contains("1045"));
    assert!(normalized.contains("<UUID>"));
    assert!(normalized.contains("<COORD>"));
}

#[test]
fn test_normalize_exact_output() {
    assert_eq!(
        normalize_dynamic_noise("at 12:00:00 obj 0x7f9a12bc y: 3"),
        "at <TIME> obj <ADDR> <COORD>"
    );
    assert_eq!(normalize_dynamic_noise("nothing here"), "nothing here");
}

#[test]
fn test_collision_resistant_keys() {
    let key1 = ErrorSignatureKey {
        hash: 42,
        structural_identity: "ErrorA".to_string(),
    };
    let key2 = ErrorSignatureKey {
        hash: 42,
        structural_identity: "ErrorB".to_string(),
    };
    assert_ne!(key1, key2);
}

#[test]
fn test_structural_identity_text() {
    let f = StackFrame::new(
        "com.example.Test".to_string(),
        "doSomething".to_string(),
        Some("Test.java".to_string()),
        Some(10),
        false,
    );
    assert_eq!(
        FingerprintGenerator::build_structural_identity(
            "java.lang.NullPointerException",
            Some("PluginA"),
            Some(&f),
            Some("failed at 12:00:00 for 0x7f9a12bc"),
        ),
        "java.lang.NullPointerException|PluginA|com.example.Test.doSomething:Test.java:10|failed at <TIME> for <ADDR>"
    );
    let g = StackFrame::new("a.B".to_string(), "c".to_string(), None, None, true);
    assert_eq!(FingerprintGenerator::build_structural_identity("E", None, Some(&g), None), "E||a.B.c::0|");
    assert_eq!(FingerprintGenerator::build_structural_identity("E", None, None, None), "E|||");
}

#[test]
fn test_compute_for_trace_uses_top_plugin_frame() {
    let trace = StackTraceBlock::new(
        "java.lang.Exception".to_string(),
        None,
        vec![frame("net.minecraft.server.Tick", "run", 1), frame("com.foo.bar.Baz", "qux", 9)],
        None,
    );
    let (key, top) = FingerprintGenerator::compute_for_trace("java.lang.Exception", None, Some("m"), &trace);
    let top = top.unwrap();
    assert_eq!(top.class_name, "com.foo.bar.Baz");
    assert_eq!(key.hash, FingerprintGenerator::generate_signature("java.lang.Exception", None, Some(&top)));
    assert_eq!(key.structural_identity, "java.lang.Exception||com.foo.bar.Baz.qux::9|m");
}

// Frames

#[test]
fn test_framework_vs_plugin_frames() {
    let nms_frame = StackFrame::new(
        "net.minecraft.server.MinecraftServer".to_string(),
        "tick".to_string(),
        None,
        Some(100),
        false,
    );
    assert!(FrameFilter::is_framework_frame(&nms_frame));
    assert!(!FrameFilter::is_plugin_frame(&nms_frame));

    let plugin_frame = StackFrame::new(
        "com.massivecraft.factions.Board".to_string(),
        "getIdAt".to_string(),
        Some("Board.java".to_string()),
        Some(54),
        false,
    );
    assert!(!FrameFilter::is_framework_frame(&plugin_frame));
    assert!(FrameFilter::is_plugin_frame(&plugin_frame));
}

#[test]
fn test_collect_plugin_namespaces() {
    let frame1 = StackFrame::new(
        "com.pluginA.listener.MyListener".to_string(),
        "onEvent".to_string(),
        None,
        Some(10),
        false,
    );
    let frame2 = StackFrame::new(
        "com.pluginB.manager.Manager".to_string(),
        "execute".to_string(),
        None,
        Some(20),
        false,
    );
    let block = StackTraceBlock::new(
        "java.lang.Exception".to_string(),
        None,
        vec![frame1, frame2],
        None,
    );
    let namespaces = FrameFilter::collect_plugin_namespaces(&block);
    assert_eq!(namespaces.len(), 2);
}

#[test]
fn test_namespaces_in_order_without_duplicates() {
    let cause = StackTraceBlock::new(
        "java.io.IOException".to_string(),
        None,
        vec![frame("org.other.Thing", "x", 1), frame("Main", "main", 2)],
        None,
    );
    let block = StackTraceBlock::new(
        "java.lang.Exception".to_string(),
        None,
        vec![
            frame("com.pluginA.listener.MyListener", "a", 1),
            frame("java.util.concurrent.FutureTask", "run", 2),
            frame("com.pluginA.listener.Other", "b", 3),
        ],
        Some(Box::new(cause)),
    );
    assert_eq!(
        FrameFilter::collect_plugin_namespaces(&block),
        vec!["com.pluginA.listener".to_string(), "org.other.Thing".to_string()]
    );
    assert_eq!(namespace_of_class("a.b.c.d"), Some("a.b.c".to_string()));
    assert_eq!(namespace_of_class("a.B"), Some("a.B".to_string()));
    assert_eq!(namespace_of_class("Main"), None);
}

#[test]
fn test_top_plugin_frame_search() {
    let cause = StackTraceBlock::new(
        "java.io.IOException".to_string(),
        None,
        vec![frame("com.deep.plugin.Worker", "work", 5)],
        None,
    );
    let block = StackTraceBlock::new(
        "java.lang.Exception".to_string(),
        None,
        vec![frame("net.minecraft.server.Tick", "run", 1)],
        Some(Box::new(cause)),
    );
    let top = FrameFilter::find_top_plugin_frame(&block).unwrap();
    assert_eq!(top.class_name, "com.deep.plugin.Worker");
    let only_framework = StackTraceBlock::new(
        "java.lang.Exception".to_string(),
        None,
        vec![frame("net.minecraft.server.Tick", "run", 1)],
        None,
    );
    assert_eq!(FrameFilter::find_top_plugin_frame(&only_framework), None);
}

#[test]
fn test_classify_frame() {
    assert_eq!(FrameFilter::classify_frame(&frame("net.minecraft.A", "b", 1)), FrameKind::Framework);
    assert_eq!(FrameFilter::classify_frame(&frame("com.a.B", "c", 1)), FrameKind::Plugin);
    assert_eq!(FrameFilter::classify_frame(&frame("Main", "main", 1)), FrameKind::Unknown);
}

// Minecraft rules

#[test]
fn test_minecraft_rules_pattern_extraction() {
    let msg = "Could not pass event BlockBreakEvent to WorldGuard v7.0.9";
    let extracted = MinecraftRules::extract_from_message(msg).expect("Should extract");
    assert_eq!(extracted.plugin_name, "WorldGuard");
    assert_eq!(extracted.plugin_version.as_deref(), Some("7.0.9"));
    assert_eq!(extracted.event_name.as_deref(), Some("BlockBreakEvent"));
}

#[test]
fn test_minecraft_rules_task_and_prefix() {
    let t = MinecraftRules::extract_from_message(
        "Plugin Essentials v2.19.0 generated an exception when executing task 42",
    )
    .unwrap();
    assert_eq!(t.plugin_name, "Essentials");
    assert_eq!(t.plugin_version.as_deref(), Some("2.19.0"));
    assert_eq!(t.event_name.as_deref(), Some("Task #42"));

    let p = MinecraftRules::extract_from_message("[LuckPerms] Loading configuration").unwrap();
    assert_eq!(p.plugin_name, "LuckPerms");
    assert_eq!(p.plugin_version, None);
    assert_eq!(p.event_name, None);

    assert_eq!(MinecraftRules::extract_from_message("Server started"), None);
}
