//! Text reports for the terminal, with optional ANSI colors.

use vstd::prelude::*;
use crate::engine::aggregation::{
    occurrence_counts, plugin_count_values, sorted_errors, sorted_plugin_counts, AggregationEngine,
    AggregationStats, EngineModel,
};
use crate::engine::ordering::lemma_count_order;
use crate::models::log_line::{level_name, LogLevel, LogLine, LogLineModel};
use crate::engine::fingerprint::opt_str_view;
use crate::engine::frame_filter::{frame_kind, is_plugin_model, FrameFilter, FrameKind};
use crate::models::error_event::{attribution_label, AggregatedError, ErrorModel};
use crate::models::stack_trace::{
    cause_chain, lemma_cause_level, lemma_trace_chain_nonempty, lemma_trace_chain_split, top_level, trace_chain,
    frames_view, FrameModel, LevelModel, StackFrame, StackTraceBlock,
};
use crate::text::{
    chars_eq_ignore_ascii_case, chars_of, decimal, eq_ignore_ascii_case, hex_fixed, opt_view,
    pad_left, pad_right, push_decimal, push_hex_fixed, push_padded_left, push_padded_right,
    push_str, str_equal,
};

verus! {

// ---------------------------------------------------------------------------
// Styling
// ---------------------------------------------------------------------------

/// `text` wrapped in the ANSI escape `code` when colors are on.
pub open spec fn styled(color: bool, code: Seq<char>, text: Seq<char>) -> Seq<char> {
    if color {
        "\x1b["@ + code + "m"@ + text + "\x1b[0m"@
    } else {
        text
    }
}

/// `text` styled with `code`, or plain when `code` is empty.
pub open spec fn maybe_styled(color: bool, code: Seq<char>, text: Seq<char>) -> Seq<char> {
    if code.len() == 0 {
        text
    } else {
        styled(color, code, text)
    }
}

pub open spec fn bold_code() -> Seq<char> {
    "1"@
}

pub open spec fn dim_code() -> Seq<char> {
    "2"@
}

pub open spec fn red_code() -> Seq<char> {
    "31"@
}

pub open spec fn green_code() -> Seq<char> {
    "32"@
}

pub open spec fn yellow_code() -> Seq<char> {
    "33"@
}

pub open spec fn magenta_code() -> Seq<char> {
    "35"@
}

pub open spec fn cyan_code() -> Seq<char> {
    "36"@
}

pub open spec fn nl() -> Seq<char> {
    "\n"@
}

/// Wraps text in ANSI escapes when enabled.
struct Styler {
    enabled: bool,
}

impl Styler {
    fn new(enabled: bool) -> (r: Self)
        ensures
            r.enabled == enabled,
    {
        Self { enabled }
    }

    /// Appends `text` styled with `code`.
    fn push(&self, out: &mut String, code: &str, text: &str)
        ensures
            final(out)@ == old(out)@ + styled(self.enabled, code@, text@),
    {
        let ghost start = out@;
        if self.enabled {
            push_str(out, "\x1b[");
            push_str(out, code);
            push_str(out, "m");
            push_str(out, text);
            push_str(out, "\x1b[0m");
            assert(out@ =~= start + styled(self.enabled, code@, text@));
        } else {
            push_str(out, text);
        }
    }

    /// Appends `text` styled with `code`, or plain when `code` is empty.
    fn push_maybe(&self, out: &mut String, code: &str, text: &str)
        ensures
            final(out)@ == old(out)@ + maybe_styled(self.enabled, code@, text@),
    {
        if code.is_empty() {
            push_str(out, text);
        } else {
            self.push(out, code, text);
        }
    }

    /// `text` styled with `code`.
    fn paint(&self, code: &str, text: &str) -> (r: String)
        ensures
            r@ == styled(self.enabled, code@, text@),
    {
        let mut s = String::new();
        self.push(&mut s, code, text);
        s
    }

    fn bold(&self, text: &str) -> (r: String)
        ensures
            r@ == styled(self.enabled, bold_code(), text@),
    {
        self.paint("1", text)
    }

    fn red(&self, text: &str) -> (r: String)
        ensures
            r@ == styled(self.enabled, red_code(), text@),
    {
        self.paint("31", text)
    }

    fn green(&self, text: &str) -> (r: String)
        ensures
            r@ == styled(self.enabled, green_code(), text@),
    {
        self.paint("32", text)
    }

    fn yellow(&self, text: &str) -> (r: String)
        ensures
            r@ == styled(self.enabled, yellow_code(), text@),
    {
        self.paint("33", text)
    }

    fn cyan(&self, text: &str) -> (r: String)
        ensures
            r@ == styled(self.enabled, cyan_code(), text@),
    {
        self.paint("36", text)
    }

    fn magenta(&self, text: &str) -> (r: String)
        ensures
            r@ == styled(self.enabled, magenta_code(), text@),
    {
        self.paint("35", text)
    }

    fn dim(&self, text: &str) -> (r: String)
        ensures
            r@ == styled(self.enabled, dim_code(), text@),
    {
        self.paint("2", text)
    }
}

// ---------------------------------------------------------------------------
// Banner and summary
// ---------------------------------------------------------------------------

/// `acc` followed by the banner: four cyan box lines and an empty line.
pub open spec fn with_banner(acc: Seq<char>, color: bool) -> Seq<char> {
    acc + styled(color, cyan_code(), "╔═══════════════════════════════════════════════════════════════╗"@) + nl()
        + styled(color, cyan_code(), "║              LOGMORPH - MINECRAFT LOG ANALYZER               ║"@) + nl()
        + styled(color, cyan_code(), "║           Streaming Parser & StackTrace Deduplicator         ║"@) + nl()
        + styled(color, cyan_code(), "╚═══════════════════════════════════════════════════════════════╝"@) + nl()
        + nl()
}

/// `acc` followed by a counter row: the label left-aligned in 27 columns,
/// the value right-aligned in 25.
pub open spec fn with_stat_row(acc: Seq<char>, label: Seq<char>, value: nat) -> Seq<char> {
    acc + "│ "@ + pad_right(label, 27) + " │ "@ + pad_left(decimal(value), 25) + " │"@ + nl()
}

/// `acc` followed by a plugin row: the name left-aligned in 30 columns, the
/// count right-aligned in 22 (both styled before padding).
pub open spec fn with_plugin_row(acc: Seq<char>, color: bool, plugin: Seq<char>, count: nat) -> Seq<char> {
    acc + "│ "@ + pad_right(styled(color, yellow_code(), plugin), 30) + " │ "@ + pad_left(
        styled(color, red_code(), decimal(count)),
        22,
    ) + " │"@ + nl()
}

/// `acc` followed by the plugin rows for `ps`.
pub open spec fn with_plugin_rows(acc: Seq<char>, color: bool, ps: Seq<(Seq<char>, nat)>) -> Seq<char>
    decreases ps.len(),
{
    if ps.len() == 0 {
        acc
    } else {
        with_plugin_row(with_plugin_rows(acc, color, ps.drop_last()), color, ps.last().0, ps.last().1)
    }
}

/// `acc` followed by the counters table; the dropped-signatures row only
/// appears when signatures were dropped.
pub open spec fn with_stats_table(acc: Seq<char>, color: bool, s: AggregationStats) -> Seq<char> {
    let a = acc + styled(color, bold_code(), "=== Execution Summary ==="@) + nl()
        + "┌─────────────────────────────┬───────────────────────────┐"@ + nl();
    let a = with_stat_row(a, "Total Lines Processed"@, s.total_lines as nat);
    let a = with_stat_row(a, "Total Log Entries"@, s.total_log_messages as nat);
    let a = with_stat_row(a, styled(color, green_code(), "INFO Messages"@), s.info_count as nat);
    let a = with_stat_row(a, styled(color, yellow_code(), "WARN Messages"@), s.warn_count as nat);
    let a = with_stat_row(a, styled(color, red_code(), "ERROR Messages"@), s.error_count as nat);
    let a = with_stat_row(a, styled(color, cyan_code(), "DEBUG Messages"@), s.debug_count as nat);
    let a = a + "├─────────────────────────────┼───────────────────────────┤"@ + nl();
    let a = with_stat_row(a, styled(color, magenta_code(), "Total Exceptions Emitted"@), s.total_exceptions as nat);
    let a = with_stat_row(a, styled(color, bold_code(), "Unique Error Signatures"@), s.unique_signatures as nat);
    let a = if s.dropped_signatures > 0 {
        with_stat_row(a, styled(color, red_code(), "Dropped Signatures (Cap)"@), s.dropped_signatures as nat)
    } else {
        a
    };
    a + "└─────────────────────────────┴───────────────────────────┘"@ + nl() + nl()
}

/// `acc` followed by the plugins table, or `acc` when no plugin has errors.
pub open spec fn with_plugins_table(acc: Seq<char>, color: bool, ps: Seq<(Seq<char>, nat)>) -> Seq<char> {
    if ps.len() == 0 {
        acc
    } else {
        let a = acc + styled(color, bold_code(), "=== Top Offending Plugins ==="@) + nl()
            + "┌────────────────────────────────┬────────────────────────┐"@ + nl() + "│ "@
            + pad_right("Plugin Name"@, 30) + " │ "@ + pad_left("Error Count"@, 22) + " │"@ + nl()
            + "├────────────────────────────────┼────────────────────────┤"@ + nl();
        with_plugin_rows(a, color, ps) + "└────────────────────────────────┴────────────────────────┘"@
            + nl() + nl()
    }
}

/// The content of a plugin summary.
pub open spec fn summary_view(ps: Seq<(&String, &usize)>) -> Seq<(Seq<char>, nat)> {
    ps.map_values(|p: (&String, &usize)| (p.0@, *p.1 as nat))
}


// ---------------------------------------------------------------------------
// Errors
// ---------------------------------------------------------------------------

/// `[Occurrences: n]` in red.
pub open spec fn occurrence_badge(color: bool, n: nat) -> Seq<char> {
    styled(color, red_code(), "[Occurrences: "@ + decimal(n) + "]"@)
}

/// `(Signature: 0x...)`, 16 hexadecimal digits, dimmed.
pub open spec fn hash_badge(color: bool, hash: u64) -> Seq<char> {
    styled(color, dim_code(), "(Signature: 0x"@ + hex_fixed(hash as nat, 16) + ")"@)
}

/// Where a frame is, as each report writes it: `file:line`; then, by
/// `mode`: 0 the file alone or `Unknown source`; 1 the file alone, or
/// `Native Method` / `Unknown`; 2 `Native Method` / `Unknown`; 3 `Unknown`.
pub open spec fn location(f: FrameModel, mode: int) -> Seq<char> {
    match (f.file_name, f.line_number) {
        (Some(fl), Some(l)) => fl + ":"@ + decimal(l as nat),
        (Some(fl), None) => if mode == 0 || mode == 1 {
            fl
        } else if mode == 2 {
            if f.is_native {
                "Native Method"@
            } else {
                "Unknown"@
            }
        } else {
            "Unknown"@
        },
        (None, _) => if mode == 0 {
            "Unknown source"@
        } else if mode == 1 || mode == 2 {
            if f.is_native {
                "Native Method"@
            } else {
                "Unknown"@
            }
        } else {
            "Unknown"@
        },
    }
}

/// `acc` followed by a frame line: indentation, a styled marker, then
/// `class.method(location)` with each part styled by its code (plain when
/// the code is empty).
pub open spec fn with_frame_line(
    acc: Seq<char>,
    color: bool,
    indent: Seq<char>,
    marker_code: Seq<char>,
    marker: Seq<char>,
    class_code: Seq<char>,
    method_code: Seq<char>,
    loc_code: Seq<char>,
    f: FrameModel,
    mode: int,
) -> Seq<char> {
    acc + indent + styled(color, marker_code, marker) + " "@ + maybe_styled(color, class_code, f.class_name)
        + "."@ + maybe_styled(color, method_code, f.method_name) + "("@ + maybe_styled(
        color,
        loc_code,
        location(f, mode),
    ) + ")"@ + nl()
}

/// `acc` followed by the key line of a top-level frame: plugin frames are
/// marked `▶`, framework frames `·`.
pub open spec fn with_key_frame(acc: Seq<char>, color: bool, f: FrameModel) -> Seq<char> {
    if is_plugin_model(f) {
        with_frame_line(acc, color, "    "@, green_code(), "▶"@, cyan_code(), ""@, ""@, f, 1)
    } else {
        with_frame_line(acc, color, "      "@, dim_code(), "·"@, ""@, ""@, ""@, f, 1)
    }
}

pub open spec fn with_key_frames(acc: Seq<char>, color: bool, fs: Seq<FrameModel>) -> Seq<char>
    decreases fs.len(),
{
    if fs.len() == 0 {
        acc
    } else {
        with_key_frame(with_key_frames(acc, color, fs.drop_last()), color, fs.last())
    }
}

/// `acc` followed by the key lines of the plugin frames of a cause.
pub open spec fn with_cause_frames(acc: Seq<char>, color: bool, fs: Seq<FrameModel>) -> Seq<char>
    decreases fs.len(),
{
    if fs.len() == 0 {
        acc
    } else {
        let a = with_cause_frames(acc, color, fs.drop_last());
        if is_plugin_model(fs.last()) {
            with_frame_line(a, color, "      "@, green_code(), "▶"@, cyan_code(), ""@, ""@, fs.last(), 3)
        } else {
            a
        }
    }
}

/// Whether some frame of `fs` is a plugin frame.
pub open spec fn has_plugin_frame(fs: Seq<FrameModel>) -> bool {
    exists|i: int| 0 <= i < fs.len() && is_plugin_model(#[trigger] fs[i])
}

/// `acc` followed by the cause block of the key frames, when the cause has
/// a plugin frame.
pub open spec fn with_cause_block(acc: Seq<char>, color: bool, lvl: LevelModel) -> Seq<char> {
    if has_plugin_frame(lvl.frames) {
        let a = acc + "    "@ + styled(color, magenta_code(), "Caused by:"@) + " "@ + styled(
            color,
            red_code(),
            lvl.exception,
        ) + nl();
        let a = match lvl.message {
            Some(m) => a + "      "@ + m + nl(),
            None => a,
        };
        with_cause_frames(a, color, lvl.frames)
    } else {
        acc
    }
}

/// `acc` followed by the brief report of error `e`, numbered `index`.
pub open spec fn with_brief(acc: Seq<char>, color: bool, e: ErrorModel, index: nat) -> Seq<char> {
    let a = acc + styled(color, bold_code(), "#"@ + decimal(index)) + " "@ + occurrence_badge(color, e.occurrences)
        + " "@ + styled(color, bold_code(), styled(color, red_code(), e.primary_exception)) + " "@
        + hash_badge(color, e.signature_hash) + nl();
    let a = match e.plugin_name {
        Some(p) => {
            let b = a + "  Plugin: "@ + styled(color, yellow_code(), p);
            let b = match e.event_name {
                Some(ev) => b + " on Event "@ + styled(color, cyan_code(), ev),
                None => b,
            };
            b + " "@ + styled(color, dim_code(), "("@ + attribution_label(e.attribution) + ")"@) + nl()
        },
        None => a,
    };
    let a = match e.exception_message {
        Some(m) => a + "  Message: "@ + m + nl(),
        None => a,
    };
    let a = match (e.first_seen, e.last_seen) {
        (Some(f), Some(l)) => if f == l {
            a + "  Timestamp: "@ + styled(color, dim_code(), f) + nl()
        } else {
            a + "  Timeline: "@ + styled(color, dim_code(), f) + " -> "@ + styled(color, dim_code(), l) + nl()
        },
        _ => a,
    };
    let a = match e.top_plugin_frame {
        Some(f) => a + "  "@ + styled(color, green_code(), "↳ Root Plugin Frame:"@) + " "@ + styled(
            color,
            cyan_code(),
            f.class_name,
        ) + "."@ + styled(color, bold_code(), f.method_name) + "("@ + location(f, 0) + ")"@ + nl(),
        None => a,
    };
    let t = e.sample_trace;
    let a = if t[0].frames.len() > 0 || (t.len() >= 2 && has_plugin_frame(t[1].frames)) {
        let b = with_key_frames(a + "  Stack Trace (Key Frames):"@ + nl(), color, t[0].frames);
        if t.len() >= 2 {
            with_cause_block(b, color, t[1])
        } else {
            b
        }
    } else {
        a
    };
    a + nl()
}

/// Whether `r` starts with `p`.
pub open spec fn extends(r: Seq<char>, p: Seq<char>) -> bool {
    p.len() <= r.len() && r.subrange(0, p.len() as int) == p
}

proof fn lemma_extends_trans(r: Seq<char>, q: Seq<char>, p: Seq<char>)
    requires
        extends(r, q),
        extends(q, p),
    ensures
        extends(r, p),
{
    assert(r.subrange(0, p.len() as int) =~= q.subrange(0, p.len() as int));
}

proof fn lemma_key_frames_extend(acc: Seq<char>, color: bool, fs: Seq<FrameModel>)
    ensures
        extends(with_key_frames(acc, color, fs), acc),
    decreases fs.len(),
{
    if fs.len() == 0 {
        assert(acc.subrange(0, acc.len() as int) =~= acc);
    } else {
        lemma_key_frames_extend(acc, color, fs.drop_last());
        let prev = with_key_frames(acc, color, fs.drop_last());
        let r = with_key_frames(acc, color, fs);
        assert(r.subrange(0, prev.len() as int) =~= prev);
        lemma_extends_trans(r, prev, acc);
    }
}

proof fn lemma_cause_frames_extend(acc: Seq<char>, color: bool, fs: Seq<FrameModel>)
    ensures
        extends(with_cause_frames(acc, color, fs), acc),
    decreases fs.len(),
{
    if fs.len() == 0 {
        assert(acc.subrange(0, acc.len() as int) =~= acc);
    } else {
        lemma_cause_frames_extend(acc, color, fs.drop_last());
        let prev = with_cause_frames(acc, color, fs.drop_last());
        let r = with_cause_frames(acc, color, fs);
        assert(r.subrange(0, prev.len() as int) =~= prev);
        lemma_extends_trans(r, prev, acc);
    }
}

proof fn lemma_cause_block_extends(acc: Seq<char>, color: bool, lvl: LevelModel)
    ensures
        extends(with_cause_block(acc, color, lvl), acc),
{
    if has_plugin_frame(lvl.frames) {
        let a = acc + "    "@ + styled(color, magenta_code(), "Caused by:"@) + " "@ + styled(
            color,
            red_code(),
            lvl.exception,
        ) + nl();
        let a2 = match lvl.message {
            Some(m) => a + "      "@ + m + nl(),
            None => a,
        };
        assert(a2.subrange(0, acc.len() as int) =~= acc);
        lemma_cause_frames_extend(a2, color, lvl.frames);
        lemma_extends_trans(with_cause_block(acc, color, lvl), a2, acc);
    } else {
        assert(acc.subrange(0, acc.len() as int) =~= acc);
    }
}

/// In the brief report of an error seen at two different times, the
/// timeline line shows the first time before the arrow and the last time
/// after it.
#[verifier::rlimit(50)]
pub proof fn lemma_brief_timeline_order(
    acc: Seq<char>,
    color: bool,
    e: ErrorModel,
    index: nat,
    first: Seq<char>,
    last: Seq<char>,
)
    requires
        e.first_seen == Some(first),
        e.last_seen == Some(last),
        first != last,
        e.sample_trace.len() >= 1,
    ensures
        exists|pre: Seq<char>, post: Seq<char>|
            with_brief(acc, color, e, index) == pre + ("  Timeline: "@ + styled(color, dim_code(), first)
                + " -> "@ + styled(color, dim_code(), last) + nl()) + post,
{
    let a = acc + styled(color, bold_code(), "#"@ + decimal(index)) + " "@ + occurrence_badge(color, e.occurrences)
        + " "@ + styled(color, bold_code(), styled(color, red_code(), e.primary_exception)) + " "@
        + hash_badge(color, e.signature_hash) + nl();
    let a = match e.plugin_name {
        Some(p) => {
            let b = a + "  Plugin: "@ + styled(color, yellow_code(), p);
            let b = match e.event_name {
                Some(ev) => b + " on Event "@ + styled(color, cyan_code(), ev),
                None => b,
            };
            b + " "@ + styled(color, dim_code(), "("@ + attribution_label(e.attribution) + ")"@) + nl()
        },
        None => a,
    };
    let pre = match e.exception_message {
        Some(m) => a + "  Message: "@ + m + nl(),
        None => a,
    };
    let line = "  Timeline: "@ + styled(color, dim_code(), first) + " -> "@ + styled(color, dim_code(), last) + nl();
    let a4 = pre + "  Timeline: "@ + styled(color, dim_code(), first) + " -> "@ + styled(color, dim_code(), last) + nl();
    assert(a4 =~= pre + line);
    let a5 = match e.top_plugin_frame {
        Some(f) => a4 + "  "@ + styled(color, green_code(), "↳ Root Plugin Frame:"@) + " "@ + styled(
            color,
            cyan_code(),
            f.class_name,
        ) + "."@ + styled(color, bold_code(), f.method_name) + "("@ + location(f, 0) + ")"@ + nl(),
        None => a4,
    };
    assert(a5.subrange(0, a4.len() as int) =~= a4);
    let t = e.sample_trace;
    let a6 = if t[0].frames.len() > 0 || (t.len() >= 2 && has_plugin_frame(t[1].frames)) {
        let h = a5 + "  Stack Trace (Key Frames):"@ + nl();
        let b = with_key_frames(h, color, t[0].frames);
        assert(h.subrange(0, a5.len() as int) =~= a5);
        lemma_key_frames_extend(h, color, t[0].frames);
        lemma_extends_trans(b, h, a5);
        if t.len() >= 2 {
            lemma_cause_block_extends(b, color, t[1]);
            lemma_extends_trans(with_cause_block(b, color, t[1]), b, a5);
            with_cause_block(b, color, t[1])
        } else {
            b
        }
    } else {
        assert(a5.subrange(0, a5.len() as int) =~= a5);
        a5
    };
    let r = a6 + nl();
    assert(r.subrange(0, a6.len() as int) =~= a6);
    lemma_extends_trans(r, a6, a5);
    lemma_extends_trans(r, a5, a4);
    assert(r == with_brief(acc, color, e, index));
    let post = r.subrange(a4.len() as int, r.len() as int);
    assert(r =~= a4 + post);
    assert(r == pre + line + post);
}

/// Whether an error passes the plugin filter (its plugin name equals the
/// filter up to ASCII case).
pub open spec fn passes_filter(e: ErrorModel, filter: Option<Seq<char>>) -> bool {
    match filter {
        Some(t) => match e.plugin_name {
            Some(p) => eq_ignore_ascii_case(p, t),
            None => false,
        },
        None => true,
    }
}

/// The errors of `es` that pass the filter, in order.
pub open spec fn filtered(es: Seq<ErrorModel>, filter: Option<Seq<char>>) -> Seq<ErrorModel>
    decreases es.len(),
{
    if es.len() == 0 {
        seq![]
    } else if passes_filter(es.last(), filter) {
        filtered(es.drop_last(), filter).push(es.last())
    } else {
        filtered(es.drop_last(), filter)
    }
}

/// `acc` followed by the brief reports of the first `n` errors of `f`,
/// numbered from 1.
pub open spec fn with_briefs(acc: Seq<char>, color: bool, f: Seq<ErrorModel>, n: nat) -> Seq<char>
    decreases n,
{
    if n == 0 {
        acc
    } else {
        with_brief(with_briefs(acc, color, f, (n - 1) as nat), color, f[n - 1], n)
    }
}

/// `acc` followed by the list of errors that pass the filter, or a note
/// that none does.
pub open spec fn with_errors(acc: Seq<char>, color: bool, es: Seq<ErrorModel>, filter: Option<Seq<char>>) -> Seq<char> {
    let f = filtered(es, filter);
    if f.len() == 0 {
        acc + styled(color, green_code(), "✔ No matching error signatures found."@) + nl()
    } else {
        with_briefs(
            acc + styled(color, bold_code(), "=== Aggregated Error Signatures ("@ + decimal(f.len()) + ") ==="@)
                + nl() + nl(),
            color,
            f,
            f.len(),
        )
    }
}

/// The contents of a sequence of error references.
pub open spec fn error_refs_view(es: Seq<&AggregatedError>) -> Seq<ErrorModel> {
    es.map_values(|e: &AggregatedError| e@)
}


// ---------------------------------------------------------------------------
// Detailed inspection, whole report, log lines
// ---------------------------------------------------------------------------

/// `acc` followed by the detailed line of a frame, by its kind.
pub open spec fn with_detail_frame(acc: Seq<char>, color: bool, f: FrameModel, mode: int) -> Seq<char> {
    match frame_kind(f) {
        FrameKind::Plugin => with_frame_line(acc, color, "  "@, green_code(), "▶ [Plugin]"@, cyan_code(), ""@, ""@, f, mode),
        FrameKind::Framework => with_frame_line(
            acc,
            color,
            "    "@,
            dim_code(),
            "[Framework]"@,
            dim_code(),
            dim_code(),
            dim_code(),
            f,
            mode,
        ),
        FrameKind::Unknown => with_frame_line(acc, color, "    "@, yellow_code(), "[Unknown]"@, yellow_code(), ""@, ""@, f, mode),
    }
}

pub open spec fn with_detail_frames(acc: Seq<char>, color: bool, fs: Seq<FrameModel>, mode: int) -> Seq<char>
    decreases fs.len(),
{
    if fs.len() == 0 {
        acc
    } else {
        with_detail_frame(with_detail_frames(acc, color, fs.drop_last(), mode), color, fs.last(), mode)
    }
}

/// `acc` followed by the detailed report of error `e`, numbered `index`.
pub open spec fn with_detailed(acc: Seq<char>, color: bool, e: ErrorModel, index: nat) -> Seq<char> {
    let a = acc + styled(color, bold_code(), "=== Detailed Inspection: Error Signature #"@ + decimal(index) + " ==="@)
        + nl() + nl();
    let a = a + "Primary Exception: "@ + styled(color, bold_code(), styled(color, red_code(), e.primary_exception))
        + " "@ + occurrence_badge(color, e.occurrences) + " "@ + hash_badge(color, e.signature_hash) + nl();
    let a = match e.plugin_name {
        Some(p) => {
            let b = a + "Plugin Attribution: "@ + styled(color, yellow_code(), p);
            let b = match e.event_name {
                Some(ev) => b + " (Event: "@ + styled(color, cyan_code(), ev) + ")"@,
                None => b,
            };
            b + " ["@ + attribution_label(e.attribution) + "]"@ + nl()
        },
        None => a,
    };
    let a = a + "Message: "@ + match e.exception_message {
        Some(m) => m,
        None => "<not available>"@,
    } + nl();
    let a = match (e.first_seen, e.last_seen) {
        (Some(f), Some(l)) => a + "Timeline: First seen at "@ + f + ", last seen at "@ + l + nl(),
        _ => a,
    };
    let a = match e.top_plugin_frame {
        Some(f) => a + "Root Plugin Frame: "@ + styled(color, cyan_code(), f.class_name) + "."@ + styled(
            color,
            bold_code(),
            f.method_name,
        ) + "("@ + location(f, 3) + ")"@ + nl(),
        None => a,
    };
    let a = a + nl();
    let t = e.sample_trace;
    let a = if t[0].frames.len() > 0 || t.len() >= 2 {
        let b = with_detail_frames(a + "Full Stack Trace:"@ + nl(), color, t[0].frames, 2);
        if t.len() >= 2 {
            let b = b + nl() + "Caused By: "@ + styled(color, red_code(), t[1].exception) + nl();
            let b = match t[1].message {
                Some(m) => b + "  Message: "@ + m + nl(),
                None => b,
            };
            with_detail_frames(b, color, t[1].frames, 3)
        } else {
            b
        }
    } else {
        a + "Full Stack Trace: "@ + styled(color, dim_code(), "<no stack frames recorded in log>"@) + nl()
    };
    a + nl()
}

/// The whole report: banner, summary tables and (unless `summary_only`)
/// the filtered error list.
pub open spec fn full_report(color: bool, m: EngineModel, summary_only: bool, filter: Option<Seq<char>>) -> Seq<char> {
    let a = with_banner(Seq::empty(), color);
    let a = with_plugins_table(with_stats_table(a, color, m.stats), color, sorted_plugin_counts(m));
    if summary_only {
        a
    } else {
        with_errors(a, color, sorted_errors(m), filter)
    }
}

/// The color of a level's name.
pub open spec fn level_style(l: LogLevel) -> Seq<char> {
    match l {
        LogLevel::Info => green_code(),
        LogLevel::Warn => yellow_code(),
        LogLevel::Error => red_code(),
        LogLevel::Debug => cyan_code(),
        LogLevel::Trace => dim_code(),
        LogLevel::Unknown => dim_code(),
    }
}

/// `acc` followed by a log line: `[time] [LEVEL] [source] message`, the time
/// and source only when known.
pub open spec fn with_log_line(acc: Seq<char>, color: bool, l: LogLineModel) -> Seq<char> {
    let a = match l.timestamp {
        Some(t) => acc + "["@ + styled(color, dim_code(), t) + "] "@,
        None => acc,
    };
    let a = a + "["@ + styled(color, level_style(l.level), level_name(l.level)) + "] "@;
    let a = match l.source {
        Some(s) => a + "["@ + styled(color, yellow_code(), s) + "] "@,
        None => a,
    };
    a + l.message + nl()
}

/// Renders reports as text.
pub struct TerminalRenderer {
    styler: Styler,
}

impl TerminalRenderer {
    /// Whether the renderer writes ANSI colors.
    pub closed spec fn color(&self) -> bool {
        self.styler.enabled
    }

    pub fn new(no_color: bool) -> (r: Self)
        ensures
            r.color() == !no_color,
    {
        Self { styler: Styler::new(!no_color) }
    }

    /// Appends the banner.
    pub fn format_banner(&self, out: &mut String)
        ensures
            final(out)@ == with_banner(old(out)@, self.color()),
    {
        self.styler.push(out, "36", "╔═══════════════════════════════════════════════════════════════╗");
        push_str(out, "\n");
        self.styler.push(out, "36", "║              LOGMORPH - MINECRAFT LOG ANALYZER               ║");
        push_str(out, "\n");
        self.styler.push(out, "36", "║           Streaming Parser & StackTrace Deduplicator         ║");
        push_str(out, "\n");
        self.styler.push(out, "36", "╚═══════════════════════════════════════════════════════════════╝");
        push_str(out, "\n");
        push_str(out, "\n");
    }

    fn push_stat_row(&self, out: &mut String, label: &str, value: usize)
        ensures
            final(out)@ == with_stat_row(old(out)@, label@, value as nat),
    {
        push_str(out, "│ ");
        push_padded_right(out, &chars_of(label), 27);
        push_str(out, " │ ");
        let mut num = String::new();
        push_decimal(&mut num, value as u64);
        push_padded_left(out, &chars_of(num.as_str()), 25);
        push_str(out, " │");
        push_str(out, "\n");
    }

    fn push_plugin_row(&self, out: &mut String, plugin: &str, count: usize)
        ensures
            final(out)@ == with_plugin_row(old(out)@, self.color(), plugin@, count as nat),
    {
        push_str(out, "│ ");
        let name = self.styler.yellow(plugin);
        push_padded_right(out, &chars_of(name.as_str()), 30);
        push_str(out, " │ ");
        let mut num = String::new();
        push_decimal(&mut num, count as u64);
        let num = self.styler.red(num.as_str());
        push_padded_left(out, &chars_of(num.as_str()), 22);
        push_str(out, " │");
        push_str(out, "\n");
    }

    fn push_stats_table(&self, out: &mut String, stats: &AggregationStats)
        ensures
            final(out)@ == with_stats_table(old(out)@, self.color(), *stats),
    {
        self.styler.push(out, "1", "=== Execution Summary ===");
        push_str(out, "\n");
        push_str(out, "┌─────────────────────────────┬───────────────────────────┐");
        push_str(out, "\n");
        self.push_stat_row(out, "Total Lines Processed", stats.total_lines);
        self.push_stat_row(out, "Total Log Entries", stats.total_log_messages);
        self.push_stat_row(out, self.styler.green("INFO Messages").as_str(), stats.info_count);
        self.push_stat_row(out, self.styler.yellow("WARN Messages").as_str(), stats.warn_count);
        self.push_stat_row(out, self.styler.red("ERROR Messages").as_str(), stats.error_count);
        self.push_stat_row(out, self.styler.cyan("DEBUG Messages").as_str(), stats.debug_count);
        push_str(out, "├─────────────────────────────┼───────────────────────────┤");
        push_str(out, "\n");
        self.push_stat_row(out, self.styler.magenta("Total Exceptions Emitted").as_str(), stats.total_exceptions);
        self.push_stat_row(out, self.styler.bold("Unique Error Signatures").as_str(), stats.unique_signatures);
        if stats.dropped_signatures > 0 {
            self.push_stat_row(out, self.styler.red("Dropped Signatures (Cap)").as_str(), stats.dropped_signatures);
        }
        push_str(out, "└─────────────────────────────┴───────────────────────────┘");
        push_str(out, "\n");
        push_str(out, "\n");
    }

    fn push_plugins_table(&self, out: &mut String, plugin_summary: &[(&String, &usize)])
        ensures
            final(out)@ == with_plugins_table(old(out)@, self.color(), summary_view(plugin_summary@)),
    {
        let ghost ps = summary_view(plugin_summary@);
        if plugin_summary.len() == 0 {
            return;
        }
        self.styler.push(out, "1", "=== Top Offending Plugins ===");
        push_str(out, "\n");
        push_str(out, "┌────────────────────────────────┬────────────────────────┐");
        push_str(out, "\n");
        push_str(out, "│ ");
        push_padded_right(out, &chars_of("Plugin Name"), 30);
        push_str(out, " │ ");
        push_padded_left(out, &chars_of("Error Count"), 22);
        push_str(out, " │");
        push_str(out, "\n");
        push_str(out, "├────────────────────────────────┼────────────────────────┤");
        push_str(out, "\n");
        let ghost rows_start = out@;
        let mut i: usize = 0;
        assert(ps.take(0) =~= Seq::<(Seq<char>, nat)>::empty());
        while i < plugin_summary.len()
            invariant
                i <= plugin_summary@.len(),
                ps == summary_view(plugin_summary@),
                out@ == with_plugin_rows(rows_start, self.color(), ps.take(i as int)),
            decreases plugin_summary@.len() - i,
        {
            let (plugin, count) = plugin_summary[i];
            self.push_plugin_row(out, plugin.as_str(), *count);
            assert(ps.take(i + 1).drop_last() =~= ps.take(i as int));
            assert(ps[i as int] == (plugin@, *count as nat));
            i = i + 1;
        }
        assert(ps.take(i as int) =~= ps);
        push_str(out, "└────────────────────────────────┴────────────────────────┘");
        push_str(out, "\n");
        push_str(out, "\n");
    }

    /// The location text of a frame.
    fn push_location(&self, out: &mut String, f: &StackFrame, mode: u8)
        ensures
            final(out)@ == old(out)@ + location(f@, mode as int),
    {
        let ghost start = out@;
        match (&f.file_name, f.line_number) {
            (Some(fl), Some(l)) => {
                push_str(out, fl.as_str());
                push_str(out, ":");
                push_decimal(out, l as u64);
            },
            (Some(fl), None) => {
                if mode == 0 || mode == 1 {
                    push_str(out, fl.as_str());
                } else if mode == 2 {
                    if f.is_native {
                        push_str(out, "Native Method");
                    } else {
                        push_str(out, "Unknown");
                    }
                } else {
                    push_str(out, "Unknown");
                }
            },
            (None, _) => {
                if mode == 0 {
                    push_str(out, "Unknown source");
                } else if mode == 1 || mode == 2 {
                    if f.is_native {
                        push_str(out, "Native Method");
                    } else {
                        push_str(out, "Unknown");
                    }
                } else {
                    push_str(out, "Unknown");
                }
            },
        }
        assert(out@ =~= start + location(f@, mode as int));
    }

    fn location_text(&self, f: &StackFrame, mode: u8) -> (r: String)
        ensures
            r@ == location(f@, mode as int),
    {
        let mut s = String::new();
        self.push_location(&mut s, f, mode);
        assert(s@ =~= location(f@, mode as int));
        s
    }

    /// Appends a frame line.
    fn push_frame_line(
        &self,
        out: &mut String,
        indent: &str,
        marker_code: &str,
        marker: &str,
        class_code: &str,
        method_code: &str,
        loc_code: &str,
        f: &StackFrame,
        mode: u8,
    )
        ensures
            final(out)@ == with_frame_line(
                old(out)@,
                self.color(),
                indent@,
                marker_code@,
                marker@,
                class_code@,
                method_code@,
                loc_code@,
                f@,
                mode as int,
            ),
    {
        push_str(out, indent);
        self.styler.push(out, marker_code, marker);
        push_str(out, " ");
        self.styler.push_maybe(out, class_code, f.class_name.as_str());
        push_str(out, ".");
        self.styler.push_maybe(out, method_code, f.method_name.as_str());
        push_str(out, "(");
        let loc = self.location_text(f, mode);
        self.styler.push_maybe(out, loc_code, loc.as_str());
        push_str(out, ")");
        push_str(out, "\n");
    }

    /// Appends the key lines of top-level frames.
    fn push_key_frames(&self, out: &mut String, frames: &Vec<StackFrame>)
        ensures
            final(out)@ == with_key_frames(old(out)@, self.color(), frames_view(frames@)),
    {
        let ghost fs = frames_view(frames@);
        let ghost start = out@;
        let mut i: usize = 0;
        assert(fs.take(0) =~= Seq::<FrameModel>::empty());
        while i < frames.len()
            invariant
                i <= frames@.len(),
                fs == frames_view(frames@),
                out@ == with_key_frames(start, self.color(), fs.take(i as int)),
            decreases frames@.len() - i,
        {
            let f = &frames[i];
            assert(fs.take(i + 1).drop_last() =~= fs.take(i as int));
            assert(fs[i as int] == f@);
            if FrameFilter::is_plugin_frame(f) {
                self.push_frame_line(out, "    ", "32", "▶", "36", "", "", f, 1);
            } else {
                self.push_frame_line(out, "      ", "2", "·", "", "", "", f, 1);
            }
            i = i + 1;
        }
        assert(fs.take(i as int) =~= fs);
    }

    /// Appends the key lines of the plugin frames of a cause.
    fn push_cause_frames(&self, out: &mut String, frames: &Vec<StackFrame>)
        ensures
            final(out)@ == with_cause_frames(old(out)@, self.color(), frames_view(frames@)),
    {
        let ghost fs = frames_view(frames@);
        let ghost start = out@;
        let mut i: usize = 0;
        assert(fs.take(0) =~= Seq::<FrameModel>::empty());
        while i < frames.len()
            invariant
                i <= frames@.len(),
                fs == frames_view(frames@),
                out@ == with_cause_frames(start, self.color(), fs.take(i as int)),
            decreases frames@.len() - i,
        {
            let f = &frames[i];
            assert(fs.take(i + 1).drop_last() =~= fs.take(i as int));
            assert(fs[i as int] == f@);
            if FrameFilter::is_plugin_frame(f) {
                self.push_frame_line(out, "      ", "32", "▶", "36", "", "", f, 3);
            }
            i = i + 1;
        }
        assert(fs.take(i as int) =~= fs);
    }

    /// Whether some frame is a plugin frame.
    fn has_plugin_frame(&self, frames: &Vec<StackFrame>) -> (r: bool)
        ensures
            r == has_plugin_frame(frames_view(frames@)),
    {
        let ghost fs = frames_view(frames@);
        let mut i: usize = 0;
        while i < frames.len()
            invariant
                i <= frames@.len(),
                fs == frames_view(frames@),
                forall|k: int| 0 <= k < i ==> !is_plugin_model(#[trigger] fs[k]),
            decreases frames@.len() - i,
        {
            assert(fs[i as int] == frames@[i as int]@);
            if FrameFilter::is_plugin_frame(&frames[i]) {
                return true;
            }
            i = i + 1;
        }
        false
    }

    /// Appends the cause block of the key frames.
    fn push_cause_block(&self, out: &mut String, cause: &StackTraceBlock)
        ensures
            final(out)@ == with_cause_block(old(out)@, self.color(), top_level(*cause)),
    {
        if self.has_plugin_frame(&cause.frames) {
            push_str(out, "    ");
            self.styler.push(out, "35", "Caused by:");
            push_str(out, " ");
            self.styler.push(out, "31", cause.primary_exception.as_str());
            push_str(out, "\n");
            match &cause.exception_message {
                Some(m) => {
                    push_str(out, "      ");
                    push_str(out, m.as_str());
                    push_str(out, "\n");
                },
                None => {},
            }
            self.push_cause_frames(out, &cause.frames);
        }
    }

    /// Appends `[Occurrences: n]` in red.
    fn push_occurrence_badge(&self, out: &mut String, n: usize)
        ensures
            final(out)@ == old(out)@ + occurrence_badge(self.color(), n as nat),
    {
        let mut t = String::new();
        push_str(&mut t, "[Occurrences: ");
        push_decimal(&mut t, n as u64);
        push_str(&mut t, "]");
        assert(t@ =~= "[Occurrences: "@ + decimal(n as nat) + "]"@);
        self.styler.push(out, "31", t.as_str());
    }

    /// Appends `(Signature: 0x...)`, dimmed.
    fn push_hash_badge(&self, out: &mut String, hash: u64)
        ensures
            final(out)@ == old(out)@ + hash_badge(self.color(), hash),
    {
        let mut t = String::new();
        push_str(&mut t, "(Signature: 0x");
        push_hex_fixed(&mut t, hash, 16);
        push_str(&mut t, ")");
        assert(t@ =~= "(Signature: 0x"@ + hex_fixed(hash as nat, 16) + ")"@);
        self.styler.push(out, "2", t.as_str());
    }

    /// Appends the brief report of an error.
    fn format_single_error_brief(&self, out: &mut String, err: &AggregatedError, index: usize)
        ensures
            final(out)@ == with_brief(old(out)@, self.color(), err@, index as nat),
    {
        let ghost c = self.color();
        let ghost e = err@;
        let mut t = String::new();
        push_str(&mut t, "#");
        push_decimal(&mut t, index as u64);
        assert(t@ =~= "#"@ + decimal(index as nat));
        self.styler.push(out, "1", t.as_str());
        push_str(out, " ");
        self.push_occurrence_badge(out, err.occurrences);
        push_str(out, " ");
        let red = self.styler.red(err.primary_exception.as_str());
        self.styler.push(out, "1", red.as_str());
        push_str(out, " ");
        self.push_hash_badge(out, err.signature_hash);
        push_str(out, "\n");
        match &err.plugin_name {
            Some(p) => {
                push_str(out, "  Plugin: ");
                self.styler.push(out, "33", p.as_str());
                match &err.event_name {
                    Some(ev) => {
                        push_str(out, " on Event ");
                        self.styler.push(out, "36", ev.as_str());
                    },
                    None => {},
                }
                push_str(out, " ");
                let mut a = String::new();
                push_str(&mut a, "(");
                push_str(&mut a, err.attribution.as_str());
                push_str(&mut a, ")");
                assert(a@ =~= "("@ + attribution_label(e.attribution) + ")"@);
                self.styler.push(out, "2", a.as_str());
                push_str(out, "\n");
            },
            None => {},
        }
        match &err.exception_message {
            Some(m) => {
                push_str(out, "  Message: ");
                push_str(out, m.as_str());
                push_str(out, "\n");
            },
            None => {},
        }
        match (&err.first_seen, &err.last_seen) {
            (Some(f), Some(l)) => {
                if str_equal(f.as_str(), l.as_str()) {
                    push_str(out, "  Timestamp: ");
                    self.styler.push(out, "2", f.as_str());
                    push_str(out, "\n");
                } else {
                    push_str(out, "  Timeline: ");
                    self.styler.push(out, "2", f.as_str());
                    push_str(out, " -> ");
                    self.styler.push(out, "2", l.as_str());
                    push_str(out, "\n");
                }
            },
            _ => {},
        }
        match &err.top_plugin_frame {
            Some(f) => {
                push_str(out, "  ");
                self.styler.push(out, "32", "↳ Root Plugin Frame:");
                push_str(out, " ");
                self.styler.push(out, "36", f.class_name.as_str());
                push_str(out, ".");
                self.styler.push(out, "1", f.method_name.as_str());
                push_str(out, "(");
                self.push_location(out, f, 0);
                push_str(out, ")");
                push_str(out, "\n");
            },
            None => {},
        }
        let trace = &err.sample_trace;
        proof {
            lemma_trace_chain_nonempty(*trace);
            lemma_cause_level(*trace);
        }
        let cause_has_plugin = match &trace.caused_by {
            Some(cb) => self.has_plugin_frame(&cb.frames),
            None => false,
        };
        if trace.frames.len() > 0 || cause_has_plugin {
            push_str(out, "  Stack Trace (Key Frames):");
            push_str(out, "\n");
            self.push_key_frames(out, &trace.frames);
            match &trace.caused_by {
                Some(cb) => self.push_cause_block(out, &**cb),
                None => {},
            }
        }
        push_str(out, "\n");
    }

    /// Appends the list of errors whose plugin matches `plugin_filter` (up
    /// to ASCII case; all errors when there is no filter), numbered from 1,
    /// or a note that there are none.
    pub fn format_errors(&self, out: &mut String, errors: &[&AggregatedError], plugin_filter: Option<&str>)
        ensures
            final(out)@ == with_errors(old(out)@, self.color(), error_refs_view(errors@), opt_str_view(plugin_filter)),
    {
        let ghost es = error_refs_view(errors@);
        let ghost flt = opt_str_view(plugin_filter);
        let target: Option<Vec<char>> = match plugin_filter {
            Some(t) => Some(chars_of(t)),
            None => None,
        };
        let mut kept: Vec<&AggregatedError> = Vec::new();
        let mut i: usize = 0;
        assert(es.take(0) =~= Seq::<ErrorModel>::empty());
        while i < errors.len()
            invariant
                i <= errors@.len(),
                es == error_refs_view(errors@),
                flt == opt_str_view(plugin_filter),
                match target {
                    Some(t) => flt == Some(t@),
                    None => flt is None,
                },
                error_refs_view(kept@) == filtered(es.take(i as int), flt),
            decreases errors@.len() - i,
        {
            let e = errors[i];
            assert(es.take(i + 1).drop_last() =~= es.take(i as int));
            assert(es[i as int] == e@);
            let pass = match &target {
                Some(t) => match &e.plugin_name {
                    Some(p) => chars_eq_ignore_ascii_case(&chars_of(p.as_str()), t),
                    None => false,
                },
                None => true,
            };
            assert(pass == passes_filter(e@, flt));
            if pass {
                let ghost before = error_refs_view(kept@);
                kept.push(e);
                assert(error_refs_view(kept@) =~= before.push(e@));
            }
            i = i + 1;
        }
        assert(es.take(i as int) =~= es);
        let ghost f = filtered(es, flt);
        if kept.len() == 0 {
            self.styler.push(out, "32", "✔ No matching error signatures found.");
            push_str(out, "\n");
            return;
        }
        let mut title = String::new();
        push_str(&mut title, "=== Aggregated Error Signatures (");
        push_decimal(&mut title, kept.len() as u64);
        push_str(&mut title, ") ===");
        assert(title@ =~= "=== Aggregated Error Signatures ("@ + decimal(f.len()) + ") ==="@);
        self.styler.push(out, "1", title.as_str());
        push_str(out, "\n");
        push_str(out, "\n");
        let ghost list_start = out@;
        let mut k: usize = 0;
        while k < kept.len()
            invariant
                k <= kept@.len(),
                f == error_refs_view(kept@),
                out@ == with_briefs(list_start, self.color(), f, k as nat),
            decreases kept@.len() - k,
        {
            assert(f[k as int] == kept@[k as int]@);
            self.format_single_error_brief(out, kept[k], k + 1);
            k = k + 1;
        }
    }

    /// Appends the detailed lines of frames.
    fn push_detail_frames(&self, out: &mut String, frames: &Vec<StackFrame>, mode: u8)
        ensures
            final(out)@ == with_detail_frames(old(out)@, self.color(), frames_view(frames@), mode as int),
    {
        let ghost fs = frames_view(frames@);
        let ghost start = out@;
        let mut i: usize = 0;
        assert(fs.take(0) =~= Seq::<FrameModel>::empty());
        while i < frames.len()
            invariant
                i <= frames@.len(),
                fs == frames_view(frames@),
                out@ == with_detail_frames(start, self.color(), fs.take(i as int), mode as int),
            decreases frames@.len() - i,
        {
            let f = &frames[i];
            assert(fs.take(i + 1).drop_last() =~= fs.take(i as int));
            assert(fs[i as int] == f@);
            match FrameFilter::classify_frame(f) {
                FrameKind::Plugin => self.push_frame_line(out, "  ", "32", "▶ [Plugin]", "36", "", "", f, mode),
                FrameKind::Framework => self.push_frame_line(out, "    ", "2", "[Framework]", "2", "2", "2", f, mode),
                FrameKind::Unknown => self.push_frame_line(out, "    ", "33", "[Unknown]", "33", "", "", f, mode),
            }
            i = i + 1;
        }
        assert(fs.take(i as int) =~= fs);
    }

    /// Appends the detailed report of an error, numbered `index`: every
    /// frame of the trace and of its first cause, by kind.
    pub fn format_single_error_detailed(&self, out: &mut String, err: &AggregatedError, index: usize)
        ensures
            final(out)@ == with_detailed(old(out)@, self.color(), err@, index as nat),
    {
        let ghost e = err@;
        let mut t = String::new();
        push_str(&mut t, "=== Detailed Inspection: Error Signature #");
        push_decimal(&mut t, index as u64);
        push_str(&mut t, " ===");
        assert(t@ =~= "=== Detailed Inspection: Error Signature #"@ + decimal(index as nat) + " ==="@);
        self.styler.push(out, "1", t.as_str());
        push_str(out, "\n");
        push_str(out, "\n");
        push_str(out, "Primary Exception: ");
        let red = self.styler.red(err.primary_exception.as_str());
        self.styler.push(out, "1", red.as_str());
        push_str(out, " ");
        self.push_occurrence_badge(out, err.occurrences);
        push_str(out, " ");
        self.push_hash_badge(out, err.signature_hash);
        push_str(out, "\n");
        match &err.plugin_name {
            Some(p) => {
                push_str(out, "Plugin Attribution: ");
                self.styler.push(out, "33", p.as_str());
                match &err.event_name {
                    Some(ev) => {
                        push_str(out, " (Event: ");
                        self.styler.push(out, "36", ev.as_str());
                        push_str(out, ")");
                    },
                    None => {},
                }
                push_str(out, " [");
                push_str(out, err.attribution.as_str());
                push_str(out, "]");
                push_str(out, "\n");
            },
            None => {},
        }
        push_str(out, "Message: ");
        match &err.exception_message {
            Some(m) => push_str(out, m.as_str()),
            None => push_str(out, "<not available>"),
        }
        push_str(out, "\n");
        match (&err.first_seen, &err.last_seen) {
            (Some(f), Some(l)) => {
                push_str(out, "Timeline: First seen at ");
                push_str(out, f.as_str());
                push_str(out, ", last seen at ");
                push_str(out, l.as_str());
                push_str(out, "\n");
            },
            _ => {},
        }
        match &err.top_plugin_frame {
            Some(f) => {
                push_str(out, "Root Plugin Frame: ");
                self.styler.push(out, "36", f.class_name.as_str());
                push_str(out, ".");
                self.styler.push(out, "1", f.method_name.as_str());
                push_str(out, "(");
                self.push_location(out, f, 3);
                push_str(out, ")");
                push_str(out, "\n");
            },
            None => {},
        }
        push_str(out, "\n");
        let trace = &err.sample_trace;
        proof {
            lemma_trace_chain_nonempty(*trace);
            lemma_cause_level(*trace);
        }
        if trace.frames.len() > 0 || trace.caused_by.is_some() {
            push_str(out, "Full Stack Trace:");
            push_str(out, "\n");
            self.push_detail_frames(out, &trace.frames, 2);
            match &trace.caused_by {
                Some(cb) => {
                    push_str(out, "\n");
                    push_str(out, "Caused By: ");
                    self.styler.push(out, "31", cb.primary_exception.as_str());
                    push_str(out, "\n");
                    match &cb.exception_message {
                        Some(m) => {
                            push_str(out, "  Message: ");
                            push_str(out, m.as_str());
                            push_str(out, "\n");
                        },
                        None => {},
                    }
                    self.push_detail_frames(out, &cb.frames, 3);
                },
                None => {},
            }
        } else {
            push_str(out, "Full Stack Trace: ");
            self.styler.push(out, "2", "<no stack frames recorded in log>");
            push_str(out, "\n");
        }
        push_str(out, "\n");
    }

    /// The whole report for an engine: banner, summary tables, and unless
    /// `summary_only` the errors whose plugin matches `plugin_filter`.
    pub fn format_all(&self, engine: &AggregationEngine, summary_only: bool, plugin_filter: Option<&str>) -> (r: String)
        ensures
            r@ == full_report(self.color(), engine@, summary_only, opt_str_view(plugin_filter)),
    {
        let mut out = String::new();
        self.format_banner(&mut out);
        let summary = engine.plugin_summary();
        proof {
            lemma_count_order(plugin_count_values(engine@.plugin_counts));
            lemma_count_order(occurrence_counts(engine@.errors));
        }
        assert(summary_view(summary@) =~= sorted_plugin_counts(engine@));
        self.format_summary(&mut out, engine.stats(), summary.as_slice());
        if !summary_only {
            let errors = engine.aggregated_errors();
            assert(error_refs_view(errors@) =~= sorted_errors(engine@));
            self.format_errors(&mut out, errors.as_slice(), plugin_filter);
        }
        out
    }

    /// Appends one log line: `[time] [LEVEL] [source] message`.
    pub fn format_log_line(&self, out: &mut String, line: &LogLine)
        ensures
            final(out)@ == with_log_line(old(out)@, self.color(), line@),
    {
        match &line.timestamp {
            Some(ts) => {
                push_str(out, "[");
                self.styler.push(out, "2", ts.as_str());
                push_str(out, "] ");
            },
            None => {},
        }
        push_str(out, "[");
        let code = match line.level {
            LogLevel::Info => "32",
            LogLevel::Warn => "33",
            LogLevel::Error => "31",
            LogLevel::Debug => "36",
            LogLevel::Trace => "2",
            LogLevel::Unknown => "2",
        };
        self.styler.push(out, code, line.level.as_str());
        push_str(out, "] ");
        match &line.source {
            Some(src) => {
                push_str(out, "[");
                self.styler.push(out, "33", src.as_str());
                push_str(out, "] ");
            },
            None => {},
        }
        push_str(out, line.message.as_str());
        push_str(out, "\n");
    }

    /// Appends the counters table, then the plugins table (when any plugin
    /// has errors).
    pub fn format_summary(&self, out: &mut String, stats: &AggregationStats, plugin_summary: &[(&String, &usize)])
        ensures
            final(out)@ == with_plugins_table(
                with_stats_table(old(out)@, self.color(), *stats),
                self.color(),
                summary_view(plugin_summary@),
            ),
    {
        self.push_stats_table(out, stats);
        self.push_plugins_table(out, plugin_summary);
    }
}

} // verus!
