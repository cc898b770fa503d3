use logmorph::cli::TerminalRenderer;
use logmorph::engine::{AggregationEngine, AggregationStats};
use logmorph::models::error_event::{AggregatedError, AttributionKind};
use logmorph::models::log_line::{LogLevel, LogLine};
use logmorph::models::stack_trace::{StackFrame, StackTraceBlock};
use logmorph::parser::ParsedEvent;

const BANNER: &str = "\
╔═══════════════════════════════════════════════════════════════╗
║              LOGMORPH - MINECRAFT LOG ANALYZER               ║
║           Streaming Parser & StackTrace Deduplicator         ║
╚═══════════════════════════════════════════════════════════════╝

";

fn f(class: &str, method: &str, file: &str, line: u32) -> StackFrame {
    StackFrame::new(class.to_string(), method.to_string(), Some(file.to_string()), Some(line), false)
}

fn sample_error() -> AggregatedError {
    let cause = StackTraceBlock::new(
        "java.lang.NullPointerException".to_string(),
        Some("Cannot invoke \"org.bukkit.entity.Player.getName()\" because \"player\" is null".to_string()),
        vec![
            f("com.example.myplugin.services.ScoreboardManager", "update", "ScoreboardManager.java", 88),
            f("com.example.myplugin.listeners.MoveListener", "onPlayerMove", "MoveListener.java", 43),
        ],
        None,
    );
    let trace = StackTraceBlock::new(
        "org.bukkit.event.EventException".to_string(),
        None,
        vec![
            f("org.bukkit.plugin.java.JavaPluginLoader$1", "execute", "JavaPluginLoader.java", 310),
            f("io.papermc.paper.plugin.manager.PaperEventManager", "callEvent", "PaperEventManager.java", 54),
            f("com.example.myplugin.listeners.MoveListener", "onPlayerMove", "MoveListener.java", 45),
            f("net.minecraft.server.MinecraftServer", "tickServer", "MinecraftServer.java", 1100),
        ],
        Some(Box::new(cause)),
    );
    AggregatedError::new(
        0x09e4a6440f4c7d70,
        "org.bukkit.event.EventException".to_string(),
        None,
        Some("MyCustomPlugin".to_string()),
        Some("PlayerMoveEvent".to_string()),
        AttributionKind::Confirmed,
        Some(f("com.example.myplugin.listeners.MoveListener", "onPlayerMove", "MoveListener.java", 45)),
        Some("12:00:05".to_string()),
        trace,
    )
}

#[test]
fn test_banner_plain() {
    let r = TerminalRenderer::new(true);
    let mut out = String::new();
    r.format_banner(&mut out);
    assert_eq!(out, BANNER);
}

#[test]
fn test_banner_colored() {
    let r = TerminalRenderer::new(false);
    let mut out = String::from(">");
    r.format_banner(&mut out);
    assert!(out.starts_with(">\x1b[36m╔"));
    assert!(out.ends_with("╝\x1b[0m\n\n"));
}

#[test]
fn test_summary_table_matches_readme() {
    let stats = AggregationStats {
        total_lines: 18,
        total_log_messages: 6,
        info_count: 5,
        warn_count: 0,
        error_count: 1,
        debug_count: 0,
        total_exceptions: 1,
        unique_signatures: 1,
        dropped_signatures: 0,
    };
    let name = "MyCustomPlugin".to_string();
    let count = 1usize;
    let r = TerminalRenderer::new(true);
    let mut out = String::new();
    r.format_summary(&mut out, &stats, &[(&name, &count)]);
    let expected = "\
=== Execution Summary ===
┌─────────────────────────────┬───────────────────────────┐
│ Total Lines Processed       │                        18 │
│ Total Log Entries           │                         6 │
│ INFO Messages               │                         5 │
│ WARN Messages               │                         0 │
│ ERROR Messages              │                         1 │
│ DEBUG Messages              │                         0 │
├─────────────────────────────┼───────────────────────────┤
│ Total Exceptions Emitted    │                         1 │
│ Unique Error Signatures     │                         1 │
└─────────────────────────────┴───────────────────────────┘

=== Top Offending Plugins ===
┌────────────────────────────────┬────────────────────────┐
│ Plugin Name                    │            Error Count │
├────────────────────────────────┼────────────────────────┤
│ MyCustomPlugin                 │                      1 │
└────────────────────────────────┴────────────────────────┘

";
    assert_eq!(out, expected);
}

#[test]
fn test_summary_dropped_row_and_no_plugins() {
    let stats = AggregationStats { dropped_signatures: 3, ..Default::default() };
    let r = TerminalRenderer::new(true);
    let mut out = String::new();
    r.format_summary(&mut out, &stats, &[]);
    assert!(out.contains("│ Dropped Signatures (Cap)    │                         3 │\n"));
    assert!(!out.contains("Top Offending Plugins"));
}

#[test]
fn test_error_brief_matches_readme() {
    let err = sample_error();
    let r = TerminalRenderer::new(true);
    let mut out = String::new();
    r.format_errors(&mut out, &[&err], None);
    let expected = "\
=== Aggregated Error Signatures (1) ===

#1 [Occurrences: 1] org.bukkit.event.EventException (Signature: 0x09e4a6440f4c7d70)
  Plugin: MyCustomPlugin on Event PlayerMoveEvent (Confirmed)
  Timestamp: 12:00:05
  ↳ Root Plugin Frame: com.example.myplugin.listeners.MoveListener.onPlayerMove(MoveListener.java:45)
  Stack Trace (Key Frames):
      · org.bukkit.plugin.java.JavaPluginLoader$1.execute(JavaPluginLoader.java:310)
      · io.papermc.paper.plugin.manager.PaperEventManager.callEvent(PaperEventManager.java:54)
    ▶ com.example.myplugin.listeners.MoveListener.onPlayerMove(MoveListener.java:45)
      · net.minecraft.server.MinecraftServer.tickServer(MinecraftServer.java:1100)
    Caused by: java.lang.NullPointerException
      Cannot invoke \"org.bukkit.entity.Player.getName()\" because \"player\" is null
      ▶ com.example.myplugin.services.ScoreboardManager.update(ScoreboardManager.java:88)
      ▶ com.example.myplugin.listeners.MoveListener.onPlayerMove(MoveListener.java:43)

";
    assert_eq!(out, expected);
}

#[test]
fn test_error_filter() {
    let err = sample_error();
    let r = TerminalRenderer::new(true);
    let mut out = String::new();
    r.format_errors(&mut out, &[&err], Some("mycustomplugin"));
    assert!(out.starts_with("=== Aggregated Error Signatures (1) ===\n"));
    let mut none = String::new();
    r.format_errors(&mut none, &[&err], Some("WorldGuard"));
    assert_eq!(none, "✔ No matching error signatures found.\n");
}

#[test]
fn test_error_detailed() {
    let err = sample_error();
    let r = TerminalRenderer::new(true);
    let mut out = String::new();
    r.format_single_error_detailed(&mut out, &err, 1);
    let expected = "\
=== Detailed Inspection: Error Signature #1 ===

Primary Exception: org.bukkit.event.EventException [Occurrences: 1] (Signature: 0x09e4a6440f4c7d70)
Plugin Attribution: MyCustomPlugin (Event: PlayerMoveEvent) [Confirmed]
Message: <not available>
Timeline: First seen at 12:00:05, last seen at 12:00:05
Root Plugin Frame: com.example.myplugin.listeners.MoveListener.onPlayerMove(MoveListener.java:45)

Full Stack Trace:
    [Framework] org.bukkit.plugin.java.JavaPluginLoader$1.execute(JavaPluginLoader.java:310)
    [Framework] io.papermc.paper.plugin.manager.PaperEventManager.callEvent(PaperEventManager.java:54)
  ▶ [Plugin] com.example.myplugin.listeners.MoveListener.onPlayerMove(MoveListener.java:45)
    [Framework] net.minecraft.server.MinecraftServer.tickServer(MinecraftServer.java:1100)

Caused By: java.lang.NullPointerException
  Message: Cannot invoke \"org.bukkit.entity.Player.getName()\" because \"player\" is null
  ▶ [Plugin] com.example.myplugin.services.ScoreboardManager.update(ScoreboardManager.java:88)
  ▶ [Plugin] com.example.myplugin.listeners.MoveListener.onPlayerMove(MoveListener.java:43)

";
    assert_eq!(out, expected);
}

#[test]
fn test_detailed_without_frames() {
    let trace = StackTraceBlock::new("java.lang.Error".to_string(), Some("bad".to_string()), vec![], None);
    let err = AggregatedError::new(255, "java.lang.Error".to_string(), Some("bad".to_string()), None, None,
        AttributionKind::Unknown, None, None, trace);
    let r = TerminalRenderer::new(true);
    let mut out = String::new();
    r.format_single_error_detailed(&mut out, &err, 3);
    let expected = "\
=== Detailed Inspection: Error Signature #3 ===

Primary Exception: java.lang.Error [Occurrences: 1] (Signature: 0x00000000000000ff)
Message: bad

Full Stack Trace: <no stack frames recorded in log>

";
    assert_eq!(out, expected);
}

#[test]
fn test_format_all_summary_only() {
    let mut engine = AggregationEngine::new();
    engine.feed_event(ParsedEvent::Line(LogLine::new(None, LogLevel::Info, None, None, "hi".to_string())));
    let r = TerminalRenderer::new(true);
    let all = r.format_all(&engine, true, None);
    assert!(all.starts_with(BANNER));
    assert!(all.contains("│ INFO Messages               │                         1 │\n"));
    assert!(!all.contains("No matching"));
    let full = r.format_all(&engine, false, None);
    assert!(full.ends_with("✔ No matching error signatures found.\n"));
}

#[test]
fn test_format_log_line() {
    let r = TerminalRenderer::new(true);
    let mut out = String::new();
    let line = LogLine::new(Some("12:00:00".to_string()), LogLevel::Warn, None, Some("Src".to_string()), "msg".to_string());
    r.format_log_line(&mut out, &line);
    assert_eq!(out, "[12:00:00] [WARN] [Src] msg\n");
    let colored = TerminalRenderer::new(false);
    let mut c = String::new();
    let plain = LogLine::new(None, LogLevel::Error, None, None, "boom".to_string());
    colored.format_log_line(&mut c, &plain);
    assert_eq!(c, "[\x1b[31mERROR\x1b[0m] boom\n");
}
