//! Counting log lines and deduplicating errors by signature.

use vstd::prelude::*;
use crate::engine::fingerprint::{
    opt_str_view, signature_of, structural_identity, ErrorSignatureKey, FingerprintGenerator,
    KeyModel,
};
use crate::engine::frame_filter::{chain_namespaces, contains_string, top_plugin_frame, FrameFilter};
use crate::engine::minecraft_rules::{spec_extract, MinecraftRules, PluginInfoModel};
use crate::engine::ordering::{count_order, lemma_count_order, order_by_count};
use crate::models::error_event::{AggregatedError, AttributionKind, ErrorModel, opt_frame_view};
use crate::models::log_line::{LogLevel, LogLine, LogLineModel};
use crate::models::stack_trace::{lemma_trace_chain_nonempty, FrameModel, LevelModel, StackFrame, StackTraceBlock};
use crate::parser::state_machine::{event_lines, opt_log_view, EventModel, ParsedEvent};
use crate::text::{
    chars_of, contains_chars, contains_seq, copy_opt, lowercase_of, opt_view, string_of, to_lowercase,
    trim, trim_str, views_of,
};

verus! {

// ---------------------------------------------------------------------------
// Reports
// ---------------------------------------------------------------------------

/// Counters over everything fed to the engine.
#[derive(Debug, Default, Clone, Copy, PartialEq, Eq, Structural)]
pub struct AggregationStats {
    pub total_lines: usize,
    pub total_log_messages: usize,
    pub info_count: usize,
    pub warn_count: usize,
    pub error_count: usize,
    pub debug_count: usize,
    pub total_exceptions: usize,
    pub unique_signatures: usize,
    pub dropped_signatures: usize,
}

/// All counters at zero.
pub open spec fn zero_stats() -> AggregationStats {
    AggregationStats {
        total_lines: 0,
        total_log_messages: 0,
        info_count: 0,
        warn_count: 0,
        error_count: 0,
        debug_count: 0,
        total_exceptions: 0,
        unique_signatures: 0,
        dropped_signatures: 0,
    }
}

/// The number of errors attributed to one plugin.
#[derive(Debug, Clone, PartialEq, Eq)]
pub struct PluginCount {
    pub plugin: String,
    pub count: usize,
}

/// Everything the engine found: counters, plugins by error count, and the
/// aggregated errors by occurrences.
#[derive(Debug, Clone, PartialEq, Eq)]
pub struct AnalysisReport {
    pub stats: AggregationStats,
    pub top_plugins: Vec<PluginCount>,
    pub aggregated_errors: Vec<AggregatedError>,
}

// ---------------------------------------------------------------------------
// Model
// ---------------------------------------------------------------------------

/// What the engine holds: the signature keys and their errors (in the
/// order first seen), the error count of each plugin (in the order first
/// counted), the counters, the signature limit, and the known plugin names.
pub struct EngineModel {
    pub keys: Seq<KeyModel>,
    pub errors: Seq<ErrorModel>,
    pub plugin_counts: Seq<(Seq<char>, nat)>,
    pub stats: AggregationStats,
    pub max_signatures: Option<usize>,
    pub known_plugins: Seq<Seq<char>>,
}

/// The total of the occurrences of `errors`.
pub open spec fn total_occurrences(errors: Seq<ErrorModel>) -> nat
    decreases errors.len(),
{
    if errors.len() == 0 {
        0
    } else {
        total_occurrences(errors.drop_last()) + errors.last().occurrences
    }
}

/// `known` after registering the plugin `name` (trimmed; blank names and
/// names already known change nothing).
pub open spec fn register(known: Seq<Seq<char>>, name: Seq<char>) -> Seq<Seq<char>> {
    let t = trim(name);
    if t.len() == 0 || known.contains(t) {
        known
    } else {
        known.push(t)
    }
}

/// `known` after registering the source of a log line and the plugin its
/// message names.
pub open spec fn register_from_log(known: Seq<Seq<char>>, l: LogLineModel) -> Seq<Seq<char>> {
    let k1 = match l.source {
        Some(src) => register(known, src),
        None => known,
    };
    match spec_extract(l.message) {
        Some(info) => register(k1, info.plugin_name),
        None => k1,
    }
}

/// The counters after one more log line of level `level`.
pub open spec fn count_log_line(s: AggregationStats, level: LogLevel) -> AggregationStats {
    let s1 = AggregationStats { total_log_messages: (s.total_log_messages + 1) as usize, ..s };
    match level {
        LogLevel::Info => AggregationStats { info_count: (s.info_count + 1) as usize, ..s1 },
        LogLevel::Warn => AggregationStats { warn_count: (s.warn_count + 1) as usize, ..s1 },
        LogLevel::Error => AggregationStats { error_count: (s.error_count + 1) as usize, ..s1 },
        LogLevel::Debug => AggregationStats { debug_count: (s.debug_count + 1) as usize, ..s1 },
        _ => s1,
    }
}

/// `s` split at every `c` (`str::split`).
pub open spec fn split_on(s: Seq<char>, c: char) -> Seq<Seq<char>>
    decreases s.len(),
{
    if s.len() == 0 {
        seq![Seq::<char>::empty()]
    } else {
        let prev = split_on(s.drop_last(), c);
        if s.last() == c {
            prev.push(Seq::<char>::empty())
        } else {
            prev.update(prev.len() - 1, prev.last().push(s.last()))
        }
    }
}

pub proof fn lemma_split_on_nonempty(s: Seq<char>, c: char)
    ensures
        split_on(s, c).len() >= 1,
    decreases s.len(),
{
    if s.len() > 0 {
        lemma_split_on_nonempty(s.drop_last(), c);
    }
}

/// The plugin that a class name suggests: its third dot-separated part, or
/// its second when it has only two.
pub open spec fn class_component(class_name: Seq<char>) -> Option<Seq<char>> {
    let parts = split_on(class_name, '.');
    if parts.len() >= 3 {
        Some(parts[2])
    } else if parts.len() >= 2 {
        Some(parts[1])
    } else {
        None
    }
}

/// The first known plugin, from index `i` on, whose lowercase name occurs
/// in the lowercase class name.
pub open spec fn first_known_in(known: Seq<Seq<char>>, class_name: Seq<char>, i: int) -> Option<
    Seq<char>,
>
    decreases known.len() - i,
{
    if i < 0 || i >= known.len() {
        None
    } else if contains_seq(lowercase_of(class_name), lowercase_of(known[i])) {
        Some(known[i])
    } else {
        first_known_in(known, class_name, i + 1)
    }
}

/// The plugin that the top plugin frame points to: a known plugin named in
/// its class, else a part of its class name.
pub open spec fn plugin_of_frame(known: Seq<Seq<char>>, top: Option<FrameModel>) -> Option<Seq<char>> {
    match top {
        Some(f) => match first_known_in(known, f.class_name, 0) {
            Some(p) => Some(p),
            None => class_component(f.class_name),
        },
        None => None,
    }
}

/// Plugin, event, attribution and the known plugins afterwards, as far as
/// the announcing log line tells: its message names the plugin (with the
/// event), else its source does.
pub open spec fn header_attribution(log: Option<LogLineModel>, known: Seq<Seq<char>>) -> (
    Option<Seq<char>>,
    Option<Seq<char>>,
    AttributionKind,
    Seq<Seq<char>>,
) {
    match log {
        Some(l) => match spec_extract(l.message) {
            Some(info) => (
                Some(info.plugin_name),
                info.event_name,
                AttributionKind::Confirmed,
                register(known, info.plugin_name),
            ),
            None => match l.source {
                Some(src) => (Some(src), None, AttributionKind::Confirmed, register(known, src)),
                None => (None, None, AttributionKind::Unknown, known),
            },
        },
        None => (None, None, AttributionKind::Unknown, known),
    }
}

/// Plugin and attribution from the stack frames: several plugin namespaces
/// are ambiguous, exactly one is detected, none is unknown.
pub open spec fn frame_attribution(trace: Seq<LevelModel>, known: Seq<Seq<char>>) -> (
    Option<Seq<char>>,
    AttributionKind,
) {
    let ns = chain_namespaces(trace);
    if ns.len() > 1 {
        (None, AttributionKind::Ambiguous)
    } else if ns.len() == 1 {
        (plugin_of_frame(known, top_plugin_frame(trace)), AttributionKind::DetectedFromStackFrame)
    } else {
        (None, AttributionKind::Unknown)
    }
}

/// Plugin, event, attribution and known plugins for an error.
pub open spec fn attribution_of(log: Option<LogLineModel>, trace: Seq<LevelModel>, known: Seq<Seq<char>>) -> (
    Option<Seq<char>>,
    Option<Seq<char>>,
    AttributionKind,
    Seq<Seq<char>>,
) {
    let h = header_attribution(log, known);
    if h.0 is Some {
        h
    } else {
        let f = frame_attribution(trace, h.3);
        (f.0, h.1, f.1, h.3)
    }
}

/// The message an error is identified by: the exception's own message,
/// else the announcing log line's message.
pub open spec fn raw_message_of(log: Option<LogLineModel>, trace: Seq<LevelModel>) -> Option<Seq<char>> {
    match trace[0].message {
        Some(m) => Some(m),
        None => match log {
            Some(l) => Some(l.message),
            None => None,
        },
    }
}

/// The time of the announcing log line.
pub open spec fn timestamp_of(log: Option<LogLineModel>) -> Option<Seq<char>> {
    match log {
        Some(l) => l.timestamp,
        None => None,
    }
}

/// The index of a key equal to `k`, if any.
pub open spec fn key_index(keys: Seq<KeyModel>, k: KeyModel) -> Option<int> {
    if exists|i: int| 0 <= i < keys.len() && keys[i] == k {
        Some(choose|i: int| 0 <= i < keys.len() && keys[i] == k)
    } else {
        None
    }
}

/// The index of the count of plugin `p`, if any.
pub open spec fn count_index(counts: Seq<(Seq<char>, nat)>, p: Seq<char>) -> Option<int> {
    if exists|i: int| 0 <= i < counts.len() && counts[i].0 == p {
        Some(choose|i: int| 0 <= i < counts.len() && counts[i].0 == p)
    } else {
        None
    }
}

/// The counts after one more error of plugin `p`.
pub open spec fn bump(counts: Seq<(Seq<char>, nat)>, p: Option<Seq<char>>) -> Seq<(Seq<char>, nat)> {
    match p {
        Some(name) => match count_index(counts, name) {
            Some(i) => counts.update(i, (name, counts[i].1 + 1)),
            None => counts.push((name, 1)),
        },
        None => counts,
    }
}

/// An error after one more occurrence at time `ts`.
pub open spec fn occurred(e: ErrorModel, ts: Option<Seq<char>>) -> ErrorModel {
    ErrorModel {
        occurrences: e.occurrences + 1,
        last_seen: if ts is Some {
            ts
        } else {
            e.last_seen
        },
        ..e
    }
}

/// What the engine holds after recording the error `trace`, announced by
/// `log`: an error with a known key is counted again; a new key is kept
/// unless the signature limit is reached, in which case it is dropped.
pub open spec fn spec_record_error(m: EngineModel, log: Option<LogLineModel>, trace: Seq<LevelModel>) -> EngineModel {
    let stats1 = AggregationStats { total_exceptions: (m.stats.total_exceptions + 1) as usize, ..m.stats };
    let raw = raw_message_of(log, trace);
    let ts = timestamp_of(log);
    let a = attribution_of(log, trace, m.known_plugins);
    let plugin = a.0;
    let top = top_plugin_frame(trace);
    let key = KeyModel {
        hash: signature_of(trace[0].exception, plugin, top),
        structural_identity: structural_identity(trace[0].exception, plugin, top, raw),
    };
    match key_index(m.keys, key) {
        Some(i) => EngineModel {
            errors: m.errors.update(i, occurred(m.errors[i], ts)),
            plugin_counts: bump(m.plugin_counts, plugin),
            stats: stats1,
            known_plugins: a.3,
            ..m
        },
        None => if m.max_signatures is Some && m.errors.len() >= m.max_signatures->0 {
            EngineModel {
                stats: AggregationStats { dropped_signatures: (m.stats.dropped_signatures + 1) as usize, ..stats1 },
                known_plugins: a.3,
                ..m
            }
        } else {
            EngineModel {
                keys: m.keys.push(key),
                errors: m.errors.push(
                    ErrorModel {
                        signature_hash: key.hash,
                        primary_exception: trace[0].exception,
                        exception_message: trace[0].message,
                        plugin_name: plugin,
                        event_name: a.1,
                        attribution: a.2,
                        top_plugin_frame: top,
                        occurrences: 1,
                        first_seen: ts,
                        last_seen: ts,
                        sample_trace: trace,
                    },
                ),
                plugin_counts: bump(m.plugin_counts, plugin),
                stats: AggregationStats { unique_signatures: (m.stats.unique_signatures + 1) as usize, ..stats1 },
                known_plugins: a.3,
                ..m
            }
        },
    }
}

/// What the engine holds after one event.
pub open spec fn spec_feed(m: EngineModel, e: EventModel) -> EngineModel {
    match e {
        EventModel::Line(l) => EngineModel {
            stats: count_log_line(
                AggregationStats { total_lines: (m.stats.total_lines + 1) as usize, ..m.stats },
                l.level,
            ),
            known_plugins: register_from_log(m.known_plugins, l),
            ..m
        },
        EventModel::ErrorWithTrace { log, trace, line_count } => {
            let s1 = AggregationStats { total_lines: (m.stats.total_lines + line_count) as usize, ..m.stats };
            let m1 = match log {
                Some(l) => EngineModel {
                    stats: count_log_line(s1, l.level),
                    known_plugins: register_from_log(m.known_plugins, l),
                    ..m
                },
                None => EngineModel { stats: s1, ..m },
            };
            spec_record_error(m1, log, trace)
        },
        EventModel::Raw(_) => EngineModel {
            stats: AggregationStats { total_lines: (m.stats.total_lines + 1) as usize, ..m.stats },
            ..m
        },
    }
}

/// Every event adds the input lines it stands for to the line counter, and
/// nothing else does: fed a whole stream, the counter is the number of
/// lines read.
pub proof fn lemma_feed_counts_event_lines(m: EngineModel, e: EventModel)
    requires
        can_feed(m, e),
    ensures
        spec_feed(m, e).stats.total_lines == m.stats.total_lines + event_lines(e),
{
}

/// Whether the counters have room for one more event.
pub open spec fn can_feed(m: EngineModel, e: EventModel) -> bool {
    &&& m.stats.total_lines + match e {
        EventModel::ErrorWithTrace { line_count, .. } => line_count,
        _ => 1,
    } <= usize::MAX
    &&& m.stats.total_log_messages < usize::MAX
    &&& m.stats.total_exceptions < usize::MAX
}

/// The consistency of what the engine holds.
pub open spec fn model_wf(m: EngineModel) -> bool {
    &&& m.keys.len() == m.errors.len()
    &&& m.stats.unique_signatures == m.errors.len()
    &&& forall|i: int| 0 <= i < m.errors.len() ==> #[trigger] m.errors[i].signature_hash == m.keys[i].hash
    &&& forall|i: int, j: int| 0 <= i < j < m.keys.len() ==> m.keys[i] != m.keys[j]
    &&& forall|i: int| 0 <= i < m.errors.len() ==> #[trigger] m.errors[i].occurrences >= 1
    &&& total_occurrences(m.errors) + m.stats.dropped_signatures == m.stats.total_exceptions
    &&& forall|i: int, j: int|
        0 <= i < j < m.plugin_counts.len() ==> m.plugin_counts[i].0 != m.plugin_counts[j].0
    &&& forall|i: int| 0 <= i < m.plugin_counts.len() ==> #[trigger] m.plugin_counts[i].1 <= m.stats.total_exceptions
    &&& m.stats.info_count <= m.stats.total_log_messages
    &&& m.stats.warn_count <= m.stats.total_log_messages
    &&& m.stats.error_count <= m.stats.total_log_messages
    &&& m.stats.debug_count <= m.stats.total_log_messages
    &&& (m.max_signatures matches Some(l) ==> m.errors.len() <= l)
}

// ---------------------------------------------------------------------------
// Laws over the model
// ---------------------------------------------------------------------------

pub proof fn lemma_total_occurrences_push(es: Seq<ErrorModel>, e: ErrorModel)
    ensures
        total_occurrences(es.push(e)) == total_occurrences(es) + e.occurrences,
{
    assert(es.push(e).drop_last() =~= es);
}

pub proof fn lemma_total_occurrences_update(es: Seq<ErrorModel>, i: int, e: ErrorModel)
    requires
        0 <= i < es.len(),
    ensures
        total_occurrences(es.update(i, e)) + es[i].occurrences == total_occurrences(es) + e.occurrences,
    decreases es.len(),
{
    if i == es.len() - 1 {
        assert(es.update(i, e).drop_last() =~= es.drop_last());
    } else {
        lemma_total_occurrences_update(es.drop_last(), i, e);
        assert(es.update(i, e).drop_last() =~= es.drop_last().update(i, e));
    }
}

pub proof fn lemma_len_le_total(es: Seq<ErrorModel>)
    requires
        forall|i: int| 0 <= i < es.len() ==> #[trigger] es[i].occurrences >= 1,
    ensures
        es.len() <= total_occurrences(es),
    decreases es.len(),
{
    if es.len() > 0 {
        lemma_len_le_total(es.drop_last());
    }
}

pub proof fn lemma_occurrences_bounded(es: Seq<ErrorModel>, i: int)
    requires
        0 <= i < es.len(),
    ensures
        es[i].occurrences <= total_occurrences(es),
    decreases es.len(),
{
    if i < es.len() - 1 {
        lemma_occurrences_bounded(es.drop_last(), i);
    }
}

/// Recording an error keeps the engine consistent; in particular, every
/// exception counted is either an occurrence of a kept signature or a
/// dropped one, and no more signatures are kept than the limit allows.
pub proof fn lemma_record_error_keeps_wf(m: EngineModel, log: Option<LogLineModel>, trace: Seq<LevelModel>)
    requires
        model_wf(m),
        m.stats.total_exceptions < usize::MAX,
        trace.len() >= 1,
    ensures
        model_wf(spec_record_error(m, log, trace)),
{
    lemma_len_le_total(m.errors);
    let r = spec_record_error(m, log, trace);
    let a = attribution_of(log, trace, m.known_plugins);
    let top = top_plugin_frame(trace);
    let key = KeyModel {
        hash: signature_of(trace[0].exception, a.0, top),
        structural_identity: structural_identity(trace[0].exception, a.0, top, raw_message_of(log, trace)),
    };
    match key_index(m.keys, key) {
        Some(i) => {
            let ts = timestamp_of(log);
            lemma_total_occurrences_update(m.errors, i, occurred(m.errors[i], ts));
            lemma_bump_keeps_wf(m.plugin_counts, a.0, m.stats.total_exceptions as nat);
            assert forall|k: int| 0 <= k < r.errors.len() implies #[trigger] r.errors[k].signature_hash
                == r.keys[k].hash by {
                if k != i {
                    assert(r.errors[k] == m.errors[k]);
                }
            }
            assert forall|k: int| 0 <= k < r.errors.len() implies #[trigger] r.errors[k].occurrences >= 1 by {
                if k != i {
                    assert(r.errors[k] == m.errors[k]);
                }
            }
        },
        None => {
            if m.max_signatures is Some && m.errors.len() >= m.max_signatures->0 {
                assert forall|k: int| 0 <= k < r.plugin_counts.len() implies #[trigger] r.plugin_counts[k].1
                    <= r.stats.total_exceptions by {}
            } else {
                let e = r.errors.last();
                lemma_total_occurrences_push(m.errors, e);
                lemma_bump_keeps_wf(m.plugin_counts, a.0, m.stats.total_exceptions as nat);
                assert forall|k: int| 0 <= k < r.errors.len() implies #[trigger] r.errors[k].signature_hash
                    == r.keys[k].hash by {
                    if k < m.errors.len() {
                        assert(r.errors[k] == m.errors[k]);
                    }
                }
                assert forall|k: int| 0 <= k < r.errors.len() implies #[trigger] r.errors[k].occurrences >= 1 by {
                    if k < m.errors.len() {
                        assert(r.errors[k] == m.errors[k]);
                    }
                }
                assert forall|x: int, y: int| 0 <= x < y < r.keys.len() implies r.keys[x] != r.keys[y] by {
                    if y == m.keys.len() {
                        assert(r.keys[x] == m.keys[x]);
                    }
                }
            }
        },
    }
}

proof fn lemma_bump_keeps_wf(counts: Seq<(Seq<char>, nat)>, p: Option<Seq<char>>, total: nat)
    requires
        forall|i: int, j: int| 0 <= i < j < counts.len() ==> counts[i].0 != counts[j].0,
        forall|i: int| 0 <= i < counts.len() ==> #[trigger] counts[i].1 <= total,
    ensures
        forall|i: int, j: int| 0 <= i < j < bump(counts, p).len() ==> bump(counts, p)[i].0 != bump(counts, p)[j].0,
        forall|i: int| 0 <= i < bump(counts, p).len() ==> #[trigger] bump(counts, p)[i].1 <= total + 1,
{
    let r = bump(counts, p);
    match p {
        Some(name) => match count_index(counts, name) {
            Some(i) => {
                assert forall|x: int, y: int| 0 <= x < y < r.len() implies r[x].0 != r[y].0 by {
                    assert(r[x].0 == counts[x].0);
                    assert(r[y].0 == counts[y].0);
                }
                assert forall|x: int| 0 <= x < r.len() implies #[trigger] r[x].1 <= total + 1 by {
                    if x != i {
                        assert(r[x] == counts[x]);
                    }
                }
            },
            None => {
                assert forall|x: int, y: int| 0 <= x < y < r.len() implies r[x].0 != r[y].0 by {
                    if y == counts.len() {
                        assert(r[x] == counts[x]);
                        assert(counts[x].0 != name);
                    }
                }
                assert forall|x: int| 0 <= x < r.len() implies #[trigger] r[x].1 <= total + 1 by {
                    if x < counts.len() {
                        assert(r[x] == counts[x]);
                    }
                }
            },
        },
        None => {},
    }
}

/// Feeding an event that has room keeps the engine consistent.
pub proof fn lemma_feed_keeps_wf(m: EngineModel, e: EventModel)
    requires
        model_wf(m),
        can_feed(m, e),
        e matches EventModel::ErrorWithTrace { trace, .. } ==> trace.len() >= 1,
    ensures
        model_wf(spec_feed(m, e)),
{
    match e {
        EventModel::ErrorWithTrace { log, trace, line_count } => {
            let s1 = AggregationStats { total_lines: (m.stats.total_lines + line_count) as usize, ..m.stats };
            let m1 = match log {
                Some(l) => EngineModel {
                    stats: count_log_line(s1, l.level),
                    known_plugins: register_from_log(m.known_plugins, l),
                    ..m
                },
                None => EngineModel { stats: s1, ..m },
            };
            assert(model_wf(m1));
            lemma_record_error_keeps_wf(m1, log, trace);
        },
        _ => {},
    }
}

/// An error whose key is already kept is counted again, and never dropped,
/// even when the signature limit is reached (first-seen retention).
pub proof fn lemma_known_signature_counted(m: EngineModel, log: Option<LogLineModel>, trace: Seq<LevelModel>, i: int)
    requires
        model_wf(m),
        0 <= i < m.keys.len(),
        m.keys[i] == (KeyModel {
            hash: signature_of(trace[0].exception, attribution_of(log, trace, m.known_plugins).0, top_plugin_frame(trace)),
            structural_identity: structural_identity(
                trace[0].exception,
                attribution_of(log, trace, m.known_plugins).0,
                top_plugin_frame(trace),
                raw_message_of(log, trace),
            ),
        }),
    ensures
        spec_record_error(m, log, trace).keys == m.keys,
        spec_record_error(m, log, trace).errors[i].occurrences == m.errors[i].occurrences + 1,
        spec_record_error(m, log, trace).stats.unique_signatures == m.stats.unique_signatures,
        spec_record_error(m, log, trace).stats.dropped_signatures == m.stats.dropped_signatures,
{
    let k = m.keys[i];
    assert(exists|j: int| 0 <= j < m.keys.len() && m.keys[j] == k);
    let j = choose|j: int| 0 <= j < m.keys.len() && m.keys[j] == k;
    assert(j == i);
}

/// Once the signature limit is reached, an error with a new key is
/// dropped: the kept errors, keys and plugin counts stay as they were, and
/// the dropped counter grows by one.
pub proof fn lemma_new_signature_dropped_at_limit(m: EngineModel, log: Option<LogLineModel>, trace: Seq<LevelModel>)
    requires
        model_wf(m),
        m.max_signatures is Some,
        m.errors.len() >= m.max_signatures->0,
        key_index(
            m.keys,
            KeyModel {
                hash: signature_of(trace[0].exception, attribution_of(log, trace, m.known_plugins).0, top_plugin_frame(trace)),
                structural_identity: structural_identity(
                    trace[0].exception,
                    attribution_of(log, trace, m.known_plugins).0,
                    top_plugin_frame(trace),
                    raw_message_of(log, trace),
                ),
            },
        ) is None,
        m.stats.total_exceptions < usize::MAX,
    ensures
        spec_record_error(m, log, trace).keys == m.keys,
        spec_record_error(m, log, trace).errors == m.errors,
        spec_record_error(m, log, trace).plugin_counts == m.plugin_counts,
        spec_record_error(m, log, trace).stats.dropped_signatures == m.stats.dropped_signatures + 1,
        spec_record_error(m, log, trace).stats.total_exceptions == m.stats.total_exceptions + 1,
{
}

/// The key under which an error announced by `log` is recorded, given the
/// known plugins.
pub open spec fn error_key(log: Option<LogLineModel>, trace: Seq<LevelModel>, known: Seq<Seq<char>>) -> KeyModel {
    let plugin = attribution_of(log, trace, known).0;
    KeyModel {
        hash: signature_of(trace[0].exception, plugin, top_plugin_frame(trace)),
        structural_identity: structural_identity(
            trace[0].exception,
            plugin,
            top_plugin_frame(trace),
            raw_message_of(log, trace),
        ),
    }
}

/// Registering keeps every known plugin, and makes the (trimmed, non-blank)
/// name known.
pub proof fn lemma_register_contains(k: Seq<Seq<char>>, n: Seq<char>, x: Seq<char>)
    ensures
        k.contains(x) ==> register(k, n).contains(x),
        trim(n).len() > 0 ==> register(k, n).contains(trim(n)),
{
    let t = trim(n);
    if !(t.len() == 0 || k.contains(t)) {
        let r = k.push(t);
        assert(r[k.len() as int] == t);
        if k.contains(x) {
            let i = choose|i: int| 0 <= i < k.len() && k[i] == x;
            assert(r[i] == x);
        }
    }
}

/// Once the plugins a log line names are registered, registering them
/// again, or taking them from its header, changes nothing.
pub proof fn lemma_register_from_log_settles(k: Seq<Seq<char>>, l: LogLineModel)
    ensures
        register_from_log(register_from_log(k, l), l) == register_from_log(k, l),
        header_attribution(Some(l), register_from_log(k, l)).3 == register_from_log(k, l),
{
    let k1 = match l.source {
        Some(src) => register(k, src),
        None => k,
    };
    let k0 = register_from_log(k, l);
    match l.source {
        Some(src) => {
            lemma_register_contains(k, src, trim(src));
            match spec_extract(l.message) {
                Some(info) => {
                    lemma_register_contains(k1, info.plugin_name, trim(src));
                    lemma_register_contains(k1, info.plugin_name, trim(info.plugin_name));
                },
                None => {},
            }
        },
        None => {
            match spec_extract(l.message) {
                Some(info) => {
                    lemma_register_contains(k1, info.plugin_name, trim(info.plugin_name));
                },
                None => {},
            }
        },
    }
    assert(register_from_log(k0, l) == k0);
}

/// Feeding the same event twice never adds a signature the second time: an
/// error gets the same key again, so it is counted again, or, when it was
/// dropped at the signature limit, dropped again (deterministic
/// deduplication).
pub proof fn lemma_same_event_twice(m: EngineModel, e: EventModel)
    requires
        model_wf(m),
    ensures
        spec_feed(spec_feed(m, e), e).keys == spec_feed(m, e).keys,
        spec_feed(spec_feed(m, e), e).errors.len() == spec_feed(m, e).errors.len(),
        spec_feed(spec_feed(m, e), e).stats.unique_signatures == spec_feed(m, e).stats.unique_signatures,
{
    match e {
        EventModel::ErrorWithTrace { log, trace, line_count } => {
            let k0 = match log {
                Some(l) => register_from_log(m.known_plugins, l),
                None => m.known_plugins,
            };
            match log {
                Some(l) => lemma_register_from_log_settles(m.known_plugins, l),
                None => {},
            }
            let key = error_key(log, trace, k0);
            let m1 = spec_feed(m, e);
            assert(m1.known_plugins == k0);
            let k1 = match log {
                Some(l) => register_from_log(m1.known_plugins, l),
                None => m1.known_plugins,
            };
            assert(k1 == k0);
            if key_index(m.keys, key) is None && !(m.max_signatures is Some && m.errors.len()
                >= m.max_signatures->0) {
                assert(m1.keys == m.keys.push(key));
                assert(m1.keys[m.keys.len() as int] == key);
            }
        },
        _ => {},
    }
}

/// An exception that has its own message is identified by that message,
/// not by the log line that announced it: the same trace recorded again
/// under another announcing log line (one that names no plugin) gets the
/// same key and adds no signature; when the first recording kept a new
/// signature, the second is one more occurrence of it, first seen at the
/// first log line's time and last seen at the second's (when it has one).
pub proof fn lemma_error_identity_ignores_log_message(
    m: EngineModel,
    log1: LogLineModel,
    log2: LogLineModel,
    trace: Seq<LevelModel>,
)
    requires
        model_wf(m),
        trace[0].message is Some,
        log1.source is None,
        log2.source is None,
        spec_extract(log1.message) is None,
        spec_extract(log2.message) is None,
    ensures
        ({
            let m1 = spec_record_error(m, Some(log1), trace);
            let m2 = spec_record_error(m1, Some(log2), trace);
            &&& m2.keys == m1.keys
            &&& m2.errors.len() == m1.errors.len()
            &&& m2.stats.unique_signatures == m1.stats.unique_signatures
            &&& m1.errors.len() == m.errors.len() + 1 ==> {
                &&& m2.errors.last().occurrences == 2
                &&& m2.errors.last().first_seen == log1.timestamp
                &&& m2.errors.last().last_seen == (if log2.timestamp is Some {
                    log2.timestamp
                } else {
                    log1.timestamp
                })
            }
        }),
{
    let k = m.known_plugins;
    let m1 = spec_record_error(m, Some(log1), trace);
    let key = error_key(Some(log1), trace, k);
    assert(m1.known_plugins == k);
    assert(error_key(Some(log2), trace, k) == key);
    if key_index(m.keys, key) is None && !(m.max_signatures is Some && m.errors.len() >= m.max_signatures->0) {
        assert(m1.keys == m.keys.push(key));
        assert(m1.keys[m.keys.len() as int] == key);
        let i = choose|i: int| 0 <= i < m1.keys.len() && m1.keys[i] == key;
        if i < m.keys.len() {
            assert(m.keys[i] == key);
            assert(false);
        }
        assert(i == m.keys.len());
    } else if key_index(m.keys, key) is Some {
        let i = choose|i: int| 0 <= i < m.keys.len() && m.keys[i] == key;
        assert(m1.keys == m.keys);
        assert(m1.errors.len() == m.errors.len());
    }
}

/// A plugin named by the announcing log line's message (an event or task
/// failure, or a `[Plugin]` prefix) wins over the log line's source: an
/// error newly kept from such an event is attributed, confirmed, to the
/// plugin and event that the message names.
pub proof fn lemma_message_plugin_wins(
    m: EngineModel,
    l: LogLineModel,
    trace: Seq<LevelModel>,
    line_count: nat,
    info: PluginInfoModel,
)
    requires
        model_wf(m),
        spec_extract(l.message) == Some(info),
    ensures
        ({
            let r = spec_feed(m, EventModel::ErrorWithTrace { log: Some(l), trace, line_count });
            r.errors.len() == m.errors.len() + 1 ==> {
                &&& r.errors.last().plugin_name == Some(info.plugin_name)
                &&& r.errors.last().event_name == info.event_name
                &&& r.errors.last().attribution == AttributionKind::Confirmed
            }
        }),
{
    let k0 = register_from_log(m.known_plugins, l);
    let a = attribution_of(Some(l), trace, k0);
    assert(a.0 == Some(info.plugin_name) && a.1 == info.event_name && a.2 == AttributionKind::Confirmed);
}

// ---------------------------------------------------------------------------
// Engine
// ---------------------------------------------------------------------------

/// Aggregates log events: counts lines by level, and groups errors by
/// signature, keeping at most `max_signatures` distinct signatures.
pub struct AggregationEngine {
    keys: Vec<ErrorSignatureKey>,
    errors: Vec<AggregatedError>,
    plugin_error_counts: Vec<PluginCount>,
    stats: AggregationStats,
    max_signatures: Option<usize>,
    known_plugins: Vec<String>,
}

/// The contents of a sequence of plugin counts.
pub open spec fn counts_view(v: Seq<PluginCount>) -> Seq<(Seq<char>, nat)> {
    v.map_values(|c: PluginCount| (c.plugin@, c.count as nat))
}

/// The contents of a sequence of keys.
pub open spec fn keys_view(v: Seq<ErrorSignatureKey>) -> Seq<KeyModel> {
    v.map_values(|k: ErrorSignatureKey| k@)
}

/// The contents of a sequence of errors.
pub open spec fn errors_view(v: Seq<AggregatedError>) -> Seq<ErrorModel> {
    v.map_values(|e: AggregatedError| e@)
}

/// The occurrences of each error.
pub open spec fn occurrence_counts(es: Seq<ErrorModel>) -> Seq<nat> {
    es.map_values(|e: ErrorModel| e.occurrences)
}

/// The error count of each plugin.
pub open spec fn plugin_count_values(cs: Seq<(Seq<char>, nat)>) -> Seq<nat> {
    cs.map_values(|c: (Seq<char>, nat)| c.1)
}

/// The plugin counts, most errors first (ties in the order first counted).
pub open spec fn sorted_plugin_counts(m: EngineModel) -> Seq<(Seq<char>, nat)> {
    count_order(plugin_count_values(m.plugin_counts)).map_values(|j: int| m.plugin_counts[j])
}

/// The kept errors, most occurrences first (ties in the order first seen).
pub open spec fn sorted_errors(m: EngineModel) -> Seq<ErrorModel> {
    count_order(occurrence_counts(m.errors)).map_values(|j: int| m.errors[j])
}

impl View for AggregationEngine {
    type V = EngineModel;

    closed spec fn view(&self) -> EngineModel {
        EngineModel {
            keys: keys_view(self.keys@),
            errors: errors_view(self.errors@),
            plugin_counts: counts_view(self.plugin_error_counts@),
            stats: self.stats,
            max_signatures: self.max_signatures,
            known_plugins: views_of(self.known_plugins@),
        }
    }
}

/// An optional string as an optional string slice.
fn opt_as_str(o: &Option<String>) -> (r: Option<&str>)
    ensures
        opt_str_view(r) == opt_view(*o),
{
    match o {
        Some(s) => Some(s.as_str()),
        None => None,
    }
}

impl AggregationEngine {
    /// Whether the engine is consistent.
    pub closed spec fn wf(&self) -> bool {
        &&& model_wf(self@)
        &&& self.keys@.len() == self.errors@.len()
    }

    /// What every consistent engine keeps: each exception counted is an
    /// occurrence of a kept signature or a dropped one, kept signatures are
    /// distinct and within the limit, and no plugin count exceeds the
    /// number of exceptions.
    pub proof fn lemma_consistent(&self)
        requires
            self.wf(),
        ensures
            model_wf(self@),
    {
    }

    /// An engine with no limit on the number of signatures.
    pub fn new() -> (r: Self)
        ensures
            r.wf(),
            r@.keys.len() == 0,
            r@.errors.len() == 0,
            r@.plugin_counts.len() == 0,
            r@.known_plugins.len() == 0,
            r@.stats == zero_stats(),
            r@.max_signatures is None,
    {
        Self::with_max_signatures(None)
    }

    /// An engine that keeps at most `max_signatures` distinct signatures
    /// (none when `None`).
    pub fn with_max_signatures(max_signatures: Option<usize>) -> (r: Self)
        ensures
            r.wf(),
            r@.keys.len() == 0,
            r@.errors.len() == 0,
            r@.plugin_counts.len() == 0,
            r@.known_plugins.len() == 0,
            r@.stats == zero_stats(),
            r@.max_signatures == max_signatures,
    {
        let r = Self {
            keys: Vec::new(),
            errors: Vec::new(),
            plugin_error_counts: Vec::new(),
            stats: AggregationStats {
                total_lines: 0,
                total_log_messages: 0,
                info_count: 0,
                warn_count: 0,
                error_count: 0,
                debug_count: 0,
                total_exceptions: 0,
                unique_signatures: 0,
                dropped_signatures: 0,
            },
            max_signatures,
            known_plugins: Vec::new(),
        };
        assert(errors_view(r.errors@) =~= Seq::<ErrorModel>::empty());
        r
    }

    /// Remembers a plugin name (trimmed; blank names are ignored).
    pub fn register_plugin(&mut self, name: &str)
        requires
            old(self).wf(),
        ensures
            final(self).wf(),
            final(self)@ == (EngineModel { known_plugins: register(old(self)@.known_plugins, name@), ..old(self)@ }),
    {
        let trimmed = trim_str(name);
        if !trimmed.as_str().is_empty() && !contains_string(&self.known_plugins, &trimmed) {
            self.known_plugins.push(trimmed);
            assert(views_of(self.known_plugins@) =~= views_of(old(self).known_plugins@).push(trim(name@)));
        }
    }

    /// Whether the counters have room for `event`.
    pub fn can_accept(&self, event: &ParsedEvent) -> (r: bool)
        ensures
            r == can_feed(self@, event@),
    {
        let lines: usize = match event {
            ParsedEvent::ErrorWithTrace { line_count, .. } => *line_count,
            _ => 1,
        };
        lines <= usize::MAX - self.stats.total_lines && self.stats.total_log_messages < usize::MAX
            && self.stats.total_exceptions < usize::MAX
    }

    /// Counts an event: its lines, the log line it carries (by level), the
    /// plugins it names, and the error it carries.
    pub fn feed_event(&mut self, event: ParsedEvent)
        requires
            old(self).wf(),
            can_feed(old(self)@, event@),
        ensures
            final(self).wf(),
            final(self)@ == spec_feed(old(self)@, event@),
    {
        match event {
            ParsedEvent::Line(log) => {
                self.stats.total_lines = self.stats.total_lines + 1;
                self.record_log_line(&log);
                self.register_from_log(&log);
            },
            ParsedEvent::ErrorWithTrace { log, trace, line_count } => {
                self.stats.total_lines = self.stats.total_lines + line_count;
                match &log {
                    Some(l) => {
                        self.record_log_line(l);
                        self.register_from_log(l);
                    },
                    None => {},
                }
                proof {
                    lemma_trace_chain_nonempty(trace);
                }
                self.record_error(log, trace);
            },
            ParsedEvent::Raw(_) => {
                self.stats.total_lines = self.stats.total_lines + 1;
            },
        }
    }

    fn register_from_log(&mut self, log: &LogLine)
        requires
            old(self).wf(),
        ensures
            final(self).wf(),
            final(self)@ == (EngineModel {
                known_plugins: register_from_log(old(self)@.known_plugins, log@),
                ..old(self)@
            }),
    {
        match &log.source {
            Some(src) => self.register_plugin(src.as_str()),
            None => {},
        }
        match MinecraftRules::extract_from_message(log.message.as_str()) {
            Some(info) => self.register_plugin(info.plugin_name.as_str()),
            None => {},
        }
    }

    fn record_log_line(&mut self, log: &LogLine)
        requires
            old(self).wf(),
            old(self)@.stats.total_log_messages < usize::MAX,
        ensures
            final(self).wf(),
            final(self)@ == (EngineModel { stats: count_log_line(old(self)@.stats, log.level), ..old(self)@ }),
    {
        self.stats.total_log_messages = self.stats.total_log_messages + 1;
        match log.level {
            LogLevel::Info => self.stats.info_count = self.stats.info_count + 1,
            LogLevel::Warn => self.stats.warn_count = self.stats.warn_count + 1,
            LogLevel::Error => self.stats.error_count = self.stats.error_count + 1,
            LogLevel::Debug => self.stats.debug_count = self.stats.debug_count + 1,
            _ => {},
        }
    }

    /// Plugin, event and attribution from the announcing log line.
    fn header_attribution(&mut self, log: &Option<LogLine>) -> (r: (Option<String>, Option<String>, AttributionKind))
        requires
            old(self).wf(),
        ensures
            final(self).wf(),
            (opt_view(r.0), opt_view(r.1), r.2, final(self)@.known_plugins) == header_attribution(
                opt_log_view(*log),
                old(self)@.known_plugins,
            ),
            final(self)@ == (EngineModel { known_plugins: final(self)@.known_plugins, ..old(self)@ }),
    {
        match log {
            Some(l) => match MinecraftRules::extract_from_message(l.message.as_str()) {
                Some(info) => {
                    self.register_plugin(info.plugin_name.as_str());
                    (Some(info.plugin_name), info.event_name, AttributionKind::Confirmed)
                },
                None => match &l.source {
                    Some(src) => {
                        self.register_plugin(src.as_str());
                        (Some(src.clone()), None, AttributionKind::Confirmed)
                    },
                    None => (None, None, AttributionKind::Unknown),
                },
            },
            None => (None, None, AttributionKind::Unknown),
        }
    }

    /// Plugin and attribution from the stack frames.
    fn frame_attribution(&self, trace: &StackTraceBlock) -> (r: (Option<String>, AttributionKind))
        ensures
            (opt_view(r.0), r.1) == frame_attribution(trace@, self@.known_plugins),
    {
        let namespaces = FrameFilter::collect_plugin_namespaces(trace);
        if namespaces.len() > 1 {
            (None, AttributionKind::Ambiguous)
        } else if namespaces.len() == 1 {
            let top = FrameFilter::find_top_plugin_frame(trace);
            let plugin = match &top {
                Some(f) => self.plugin_of_frame(f),
                None => None,
            };
            (plugin, AttributionKind::DetectedFromStackFrame)
        } else {
            (None, AttributionKind::Unknown)
        }
    }

    /// A known plugin named in the frame's class, else a part of the class
    /// name.
    fn plugin_of_frame(&self, frame: &StackFrame) -> (r: Option<String>)
        ensures
            opt_view(r) == plugin_of_frame(self@.known_plugins, Some(frame@)),
    {
        let class_lower = chars_of(to_lowercase(frame.class_name.as_str()).as_str());
        let ghost known = self@.known_plugins;
        let mut i: usize = 0;
        while i < self.known_plugins.len()
            invariant
                i <= self.known_plugins@.len(),
                known == views_of(self.known_plugins@),
                class_lower@ == lowercase_of(frame.class_name@),
                first_known_in(known, frame.class_name@, i as int) == first_known_in(known, frame.class_name@, 0),
            decreases self.known_plugins@.len() - i,
        {
            let p_lower = chars_of(to_lowercase(self.known_plugins[i].as_str()).as_str());
            assert(known[i as int] == self.known_plugins@[i as int]@);
            if contains_chars(&class_lower, &p_lower) {
                return Some(self.known_plugins[i].clone());
            }
            i = i + 1;
        }
        class_component_of(frame.class_name.as_str())
    }

    /// The index of the key equal to `key`, if any.
    #[verifier::loop_isolation(false)]
    fn find_key(&self, key: &ErrorSignatureKey) -> (r: Option<usize>)
        requires
            self.wf(),
        ensures
            match r {
                Some(i) => key_index(self@.keys, key@) == Some(i as int),
                None => key_index(self@.keys, key@) is None,
            },
    {
        let target = chars_of(key.structural_identity.as_str());
        let mut i: usize = 0;
        while i < self.keys.len()
            invariant
                i <= self.keys@.len(),
                target@ == key.structural_identity@,
                forall|k: int| 0 <= k < i ==> keys_view(self.keys@)[k] != key@,
            decreases self.keys@.len() - i,
        {
            if self.keys[i].hash == key.hash && crate::text::chars_equal(
                &chars_of(self.keys[i].structural_identity.as_str()),
                &target,
            ) {
                proof {
                    let ks = keys_view(self.keys@);
                    assert(ks[i as int] == key@);
                    let j = choose|j: int| 0 <= j < ks.len() && ks[j] == key@;
                    assert(j == i);
                }
                return Some(i);
            }
            assert(keys_view(self.keys@)[i as int] != key@);
            i = i + 1;
        }
        None
    }

    /// Counts one more error of plugin `name`.
    #[verifier::loop_isolation(false)]
    fn bump_plugin(&mut self, name: &String)
        requires
            forall|i: int, j: int|
                0 <= i < j < old(self)@.plugin_counts.len() ==> old(self)@.plugin_counts[i].0
                    != old(self)@.plugin_counts[j].0,
            forall|i: int|
                0 <= i < old(self)@.plugin_counts.len() ==> #[trigger] old(self)@.plugin_counts[i].1
                    < usize::MAX,
        ensures
            final(self)@ == (EngineModel {
                plugin_counts: bump(old(self)@.plugin_counts, Some(name@)),
                ..old(self)@
            }),
            final(self).keys@ == old(self).keys@,
            final(self).errors@ == old(self).errors@,
    {
        let target = chars_of(name.as_str());
        let ghost cs = counts_view(self.plugin_error_counts@);
        let mut i: usize = 0;
        while i < self.plugin_error_counts.len()
            invariant
                i <= self.plugin_error_counts@.len(),
                cs == counts_view(self.plugin_error_counts@),
                *self == *old(self),
                target@ == name@,
                forall|k: int| 0 <= k < i ==> cs[k].0 != name@,
            decreases self.plugin_error_counts@.len() - i,
        {
            if crate::text::chars_equal(&chars_of(self.plugin_error_counts[i].plugin.as_str()), &target) {
                proof {
                    assert(cs[i as int].0 == name@);
                    let j = choose|j: int| 0 <= j < cs.len() && cs[j].0 == name@;
                    assert(j == i);
                    assert(cs[i as int].1 < usize::MAX);
                }
                let c = self.plugin_error_counts[i].count;
                self.plugin_error_counts[i].count = c + 1;
                assert(counts_view(self.plugin_error_counts@) =~= cs.update(i as int, (name@, cs[i as int].1 + 1)));
                return;
            }
            assert(cs[i as int].0 != name@);
            i = i + 1;
        }
        self.plugin_error_counts.push(PluginCount { plugin: name.clone(), count: 1 });
        assert(counts_view(self.plugin_error_counts@) =~= cs.push((name@, 1nat)));
    }

    /// The counters.
    pub fn stats(&self) -> (r: &AggregationStats)
        ensures
            *r == self@.stats,
    {
        &self.stats
    }

    /// The occurrences of each kept error, in the order first seen.
    fn occurrence_list(&self) -> (r: Vec<usize>)
        ensures
            r@.map_values(|c: usize| c as nat) == occurrence_counts(self@.errors),
    {
        let mut r: Vec<usize> = Vec::new();
        let mut i: usize = 0;
        while i < self.errors.len()
            invariant
                i <= self.errors@.len(),
                r@.len() == i,
                forall|k: int| 0 <= k < i ==> #[trigger] r@[k] == self.errors@[k].occurrences,
            decreases self.errors@.len() - i,
        {
            r.push(self.errors[i].occurrences);
            i = i + 1;
        }
        assert(r@.map_values(|c: usize| c as nat) =~= occurrence_counts(self@.errors));
        r
    }

    /// The error count of each plugin, in the order first counted.
    fn plugin_count_list(&self) -> (r: Vec<usize>)
        ensures
            r@.map_values(|c: usize| c as nat) == plugin_count_values(self@.plugin_counts),
    {
        let mut r: Vec<usize> = Vec::new();
        let mut i: usize = 0;
        while i < self.plugin_error_counts.len()
            invariant
                i <= self.plugin_error_counts@.len(),
                r@.len() == i,
                forall|k: int| 0 <= k < i ==> #[trigger] r@[k] == self.plugin_error_counts@[k].count,
            decreases self.plugin_error_counts@.len() - i,
        {
            r.push(self.plugin_error_counts[i].count);
            i = i + 1;
        }
        assert(r@.map_values(|c: usize| c as nat) =~= plugin_count_values(self@.plugin_counts));
        r
    }

    /// The kept errors, most occurrences first; among equal counts, the one
    /// first seen comes first.
    pub fn aggregated_errors(&self) -> (r: Vec<&AggregatedError>)
        ensures
            r@.len() == self@.errors.len(),
            forall|i: int|
                0 <= i < r@.len() ==> #[trigger] r@[i]@ == self@.errors[count_order(
                    occurrence_counts(self@.errors),
                )[i]],
    {
        let counts = self.occurrence_list();
        let order = order_by_count(&counts);
        let ghost o = count_order(occurrence_counts(self@.errors));
        proof {
            lemma_count_order(occurrence_counts(self@.errors));
            assert(order@.len() == o.len());
        }
        let mut r: Vec<&AggregatedError> = Vec::new();
        let mut k: usize = 0;
        while k < order.len()
            invariant
                k <= order@.len(),
                order@.len() == self.errors@.len(),
                order@.map_values(|i: usize| i as int) == o,
                forall|i: int| 0 <= i < o.len() ==> 0 <= #[trigger] o[i] < self.errors@.len(),
                r@.len() == k,
                forall|i: int| 0 <= i < k ==> #[trigger] r@[i]@ == self@.errors[o[i]],
            decreases order@.len() - k,
        {
            assert(o[k as int] == order@[k as int] as int);
            r.push(&self.errors[order[k]]);
            k = k + 1;
        }
        r
    }

    /// The plugins with their error counts, most errors first; among equal
    /// counts, the one first counted comes first.
    pub fn plugin_summary(&self) -> (r: Vec<(&String, &usize)>)
        ensures
            r@.len() == self@.plugin_counts.len(),
            forall|i: int|
                0 <= i < r@.len() ==> {
                    let j = count_order(plugin_count_values(self@.plugin_counts))[i];
                    &&& (#[trigger] r@[i]).0@ == self@.plugin_counts[j].0
                    &&& *r@[i].1 as nat == self@.plugin_counts[j].1
                },
    {
        let counts = self.plugin_count_list();
        let order = order_by_count(&counts);
        let ghost o = count_order(plugin_count_values(self@.plugin_counts));
        proof {
            lemma_count_order(plugin_count_values(self@.plugin_counts));
            assert(order@.len() == o.len());
        }
        let mut r: Vec<(&String, &usize)> = Vec::new();
        let mut k: usize = 0;
        while k < order.len()
            invariant
                k <= order@.len(),
                order@.len() == self.plugin_error_counts@.len(),
                order@.map_values(|i: usize| i as int) == o,
                forall|i: int| 0 <= i < o.len() ==> 0 <= #[trigger] o[i] < self.plugin_error_counts@.len(),
                r@.len() == k,
                forall|i: int|
                    0 <= i < k ==> {
                        &&& (#[trigger] r@[i]).0@ == self@.plugin_counts[o[i]].0
                        &&& *r@[i].1 as nat == self@.plugin_counts[o[i]].1
                    },
            decreases order@.len() - k,
        {
            assert(o[k as int] == order@[k as int] as int);
            let entry = &self.plugin_error_counts[order[k]];
            r.push((&entry.plugin, &entry.count));
            k = k + 1;
        }
        r
    }

    /// A snapshot of everything found: the counters, the plugins by error
    /// count and the errors by occurrences, in the orders of
    /// `plugin_summary` and `aggregated_errors`.
    pub fn to_report(&self) -> (r: AnalysisReport)
        ensures
            r.stats == self@.stats,
            counts_view(r.top_plugins@) == sorted_plugin_counts(self@),
            errors_view(r.aggregated_errors@) == sorted_errors(self@),
    {
        let summary = self.plugin_summary();
        let mut top_plugins: Vec<PluginCount> = Vec::new();
        let mut k: usize = 0;
        while k < summary.len()
            invariant
                k <= summary@.len(),
                top_plugins@.len() == k,
                forall|i: int|
                    0 <= i < k ==> {
                        &&& (#[trigger] top_plugins@[i]).plugin@ == summary@[i].0@
                        &&& top_plugins@[i].count == *summary@[i].1
                    },
            decreases summary@.len() - k,
        {
            let (name, count) = summary[k];
            top_plugins.push(PluginCount { plugin: name.clone(), count: *count });
            k = k + 1;
        }
        let errors = self.aggregated_errors();
        let mut copies: Vec<AggregatedError> = Vec::new();
        let mut k: usize = 0;
        while k < errors.len()
            invariant
                k <= errors@.len(),
                copies@.len() == k,
                forall|i: int| 0 <= i < k ==> (#[trigger] copies@[i])@ == errors@[i]@,
            decreases errors@.len() - k,
        {
            copies.push(errors[k].duplicate());
            k = k + 1;
        }
        proof {
            let po = count_order(plugin_count_values(self@.plugin_counts));
            let eo = count_order(occurrence_counts(self@.errors));
            assert forall|i: int| 0 <= i < top_plugins@.len() implies #[trigger] counts_view(top_plugins@)[i]
                == self@.plugin_counts[po[i]] by {
                assert(summary@[i].0@ == self@.plugin_counts[po[i]].0);
            }
            assert forall|i: int| 0 <= i < copies@.len() implies #[trigger] errors_view(copies@)[i]
                == self@.errors[eo[i]] by {
                assert(errors@[i]@ == self@.errors[eo[i]]);
            }
            lemma_count_order(plugin_count_values(self@.plugin_counts));
            lemma_count_order(occurrence_counts(self@.errors));
            assert(counts_view(top_plugins@) =~= sorted_plugin_counts(self@));
            assert(errors_view(copies@) =~= sorted_errors(self@));
        }
        AnalysisReport { stats: self.stats, top_plugins, aggregated_errors: copies }
    }

    fn record_error(&mut self, log: Option<LogLine>, trace: StackTraceBlock)
        requires
            old(self).wf(),
            old(self)@.stats.total_exceptions < usize::MAX,
            trace@.len() >= 1,
        ensures
            final(self).wf(),
            final(self)@ == spec_record_error(old(self)@, opt_log_view(log), trace@),
    {
        let ghost m = self@;
        let ghost lm = opt_log_view(log);
        let ghost tm = trace@;
        proof {
            lemma_trace_chain_nonempty(trace);
            lemma_record_error_keeps_wf(m, lm, tm);
        }
        let raw_message = match &trace.exception_message {
            Some(msg) => Some(msg.clone()),
            None => match &log {
                Some(l) => Some(l.message.clone()),
                None => None,
            },
        };
        let timestamp = match &log {
            Some(l) => copy_opt(&l.timestamp),
            None => None,
        };
        assert(opt_view(raw_message) == raw_message_of(lm, tm));
        assert(opt_view(timestamp) == timestamp_of(lm));
        let (h_plugin, event_name, h_attr) = self.header_attribution(&log);
        let (plugin_name, attribution) = if h_plugin.is_some() {
            (h_plugin, h_attr)
        } else {
            self.frame_attribution(&trace)
        };
        let ghost a = attribution_of(lm, tm, m.known_plugins);
        assert(opt_view(plugin_name) == a.0 && opt_view(event_name) == a.1 && attribution == a.2
            && self@.known_plugins == a.3);
        let (key, top_frame) = FingerprintGenerator::compute_for_trace(
            trace.primary_exception.as_str(),
            opt_as_str(&plugin_name),
            opt_as_str(&raw_message),
            &trace,
        );
        let ghost r = spec_record_error(m, lm, tm);
        match self.find_key(&key) {
            Some(i) => {
                proof {
                    lemma_occurrences_bounded(m.errors, i as int);
                }
                match &plugin_name {
                    Some(p) => self.bump_plugin(p),
                    None => {},
                }
                let ghost before = self.errors@;
                self.errors[i].record_occurrence(timestamp);
                assert(errors_view(self.errors@) =~= errors_view(before).update(
                    i as int,
                    occurred(m.errors[i as int], timestamp_of(lm)),
                ));
                self.stats.total_exceptions = self.stats.total_exceptions + 1;
                assert(self@ == r);
            },
            None => {
                match self.max_signatures {
                    Some(limit) => {
                        if self.errors.len() >= limit {
                            self.stats.dropped_signatures = self.stats.dropped_signatures + 1;
                            self.stats.total_exceptions = self.stats.total_exceptions + 1;
                            assert(self@ == r);
                            return;
                        }
                    },
                    None => {},
                }
                proof {
                    lemma_len_le_total(m.errors);
                }
                match &plugin_name {
                    Some(p) => self.bump_plugin(p),
                    None => {},
                }
                let primary = trace.primary_exception.clone();
                let own_message = copy_opt(&trace.exception_message);
                let error = AggregatedError::new(
                    key.hash,
                    primary,
                    own_message,
                    plugin_name,
                    event_name,
                    attribution,
                    top_frame,
                    timestamp,
                    trace,
                );
                let ghost kv = key@;
                self.keys.push(key);
                self.errors.push(error);
                assert(keys_view(self.keys@) =~= m.keys.push(kv));
                assert(errors_view(self.errors@) =~= m.errors.push(error@));
                self.stats.unique_signatures = self.stats.unique_signatures + 1;
                self.stats.total_exceptions = self.stats.total_exceptions + 1;
                assert(self@ == r);
            },
        }
    }
}

/// The part of a class name that suggests its plugin.
fn class_component_of(class_name: &str) -> (r: Option<String>)
    ensures
        opt_view(r) == class_component(class_name@),
{
    let s = chars_of(class_name);
    let mut parts: Vec<Vec<char>> = Vec::new();
    parts.push(Vec::new());
    let mut i: usize = 0;
    assert(s@.take(0) =~= Seq::<char>::empty());
    assert(parts@.map_values(|v: Vec<char>| v@) =~= split_on(s@.take(0), '.'));
    while i < s.len()
        invariant
            i <= s@.len(),
            parts@.map_values(|v: Vec<char>| v@) == split_on(s@.take(i as int), '.'),
        decreases s@.len() - i,
    {
        let ghost prev = parts@.map_values(|v: Vec<char>| v@);
        assert(s@.take(i + 1).drop_last() =~= s@.take(i as int));
        proof {
            lemma_split_on_nonempty(s@.take(i as int), '.');
        }
        if s[i] == '.' {
            parts.push(Vec::new());
            assert(parts@.map_values(|v: Vec<char>| v@) =~= prev.push(Seq::<char>::empty()));
        } else {
            let mut last = parts.pop().unwrap();
            last.push(s[i]);
            parts.push(last);
            assert(parts@.map_values(|v: Vec<char>| v@) =~= prev.update(prev.len() - 1, prev.last().push(s@[i as int])));
        }
        i = i + 1;
    }
    assert(s@.take(i as int) =~= s@);
    if parts.len() >= 3 {
        Some(string_of(&parts[2]))
    } else if parts.len() >= 2 {
        Some(string_of(&parts[1]))
    } else {
        None
    }
}

} // verus!
