//! Telling server and JDK framework frames apart from plugin frames.

use vstd::prelude::*;
use crate::models::stack_trace::{cause_chain, lemma_trace_chain_split, frames_view, trace_chain, FrameModel, LevelModel, StackFrame, StackTraceBlock, top_level};
use crate::text::{chars_equal, chars_of, is_prefix, last_index_of, rfind_char, slice_chars, starts_with_chars, string_of, views_of};

verus! {

/// Class-name prefixes of Minecraft server, Bukkit/Paper and JDK plumbing.
pub open spec fn framework_prefixes() -> Seq<Seq<char>> {
    seq![
        "net.minecraft."@,
        "org.bukkit.craftbukkit."@,
        "org.bukkit.plugin.java."@,
        "org.bukkit.plugin.SimplePluginManager"@,
        "org.bukkit.plugin.RegisteredListener"@,
        "org.bukkit.plugin.TimedRegisteredListener"@,
        "com.destroystokyo.paper."@,
        "io.papermc.paper."@,
        "java.lang.reflect."@,
        "java.base/java.lang.reflect."@,
        "jdk.internal.reflect."@,
        "sun.reflect."@,
        "java.lang.Thread."@,
        "java.base/java.lang.Thread."@,
        "java.util.concurrent."@,
        "java.base/java.util.concurrent."@,
        "co.aikar.timings."@,
    ]
}

fn framework_prefix_list() -> (r: Vec<&'static str>)
    ensures
        r@.len() == framework_prefixes().len(),
        forall|i: int| 0 <= i < r@.len() ==> #[trigger] r@[i]@ == framework_prefixes()[i],
{
    let mut r: Vec<&'static str> = Vec::new();
    r.push("net.minecraft.");
    r.push("org.bukkit.craftbukkit.");
    r.push("org.bukkit.plugin.java.");
    r.push("org.bukkit.plugin.SimplePluginManager");
    r.push("org.bukkit.plugin.RegisteredListener");
    r.push("org.bukkit.plugin.TimedRegisteredListener");
    r.push("com.destroystokyo.paper.");
    r.push("io.papermc.paper.");
    r.push("java.lang.reflect.");
    r.push("java.base/java.lang.reflect.");
    r.push("jdk.internal.reflect.");
    r.push("sun.reflect.");
    r.push("java.lang.Thread.");
    r.push("java.base/java.lang.Thread.");
    r.push("java.util.concurrent.");
    r.push("java.base/java.util.concurrent.");
    r.push("co.aikar.timings.");
    r
}

/// Whether a class belongs to the server or JDK framework.
pub open spec fn is_framework_class(class_name: Seq<char>) -> bool {
    exists|i: int| 0 <= i < framework_prefixes().len() && is_prefix(#[trigger] framework_prefixes()[i], class_name)
}

/// Whether a frame may belong to a plugin: it is not a framework frame.
pub open spec fn is_plugin_model(f: FrameModel) -> bool {
    !is_framework_class(f.class_name)
}

/// Where the namespace of a class name ends: before its third dot, or at
/// its end (`i` is the scan position, `dots` the dots seen before it).
pub open spec fn namespace_end(s: Seq<char>, i: int, dots: nat) -> int
    decreases s.len() - i,
{
    if i < 0 || i >= s.len() {
        s.len() as int
    } else if s[i] == '.' {
        if dots == 2 {
            i
        } else {
            namespace_end(s, i + 1, dots + 1)
        }
    } else {
        namespace_end(s, i + 1, dots)
    }
}

/// The plugin namespace of a class: its first three dot-separated parts
/// (or its first two when there are only two); a class without a dot has
/// none.
pub open spec fn namespace_of(class_name: Seq<char>) -> Option<Seq<char>> {
    if last_index_of(class_name, '.') is Some {
        Some(class_name.take(namespace_end(class_name, 0, 0)))
    } else {
        None
    }
}

/// The plugin frames of `fs`, in order.
pub open spec fn plugin_frames(fs: Seq<FrameModel>) -> Seq<FrameModel>
    decreases fs.len(),
{
    if fs.len() == 0 {
        seq![]
    } else if is_plugin_model(fs.last()) {
        plugin_frames(fs.drop_last()).push(fs.last())
    } else {
        plugin_frames(fs.drop_last())
    }
}

/// The frames of a cause chain, outermost exception first.
pub open spec fn chain_frames(levels: Seq<LevelModel>) -> Seq<FrameModel>
    decreases levels.len(),
{
    if levels.len() == 0 {
        seq![]
    } else {
        chain_frames(levels.drop_last()) + levels.last().frames
    }
}

/// The first plugin frame of a cause chain, outermost exception first.
pub open spec fn top_plugin_frame(levels: Seq<LevelModel>) -> Option<FrameModel> {
    let pf = plugin_frames(chain_frames(levels));
    if pf.len() > 0 {
        Some(pf[0])
    } else {
        None
    }
}

/// Every frame that `plugin_frames` keeps is a plugin frame of `fs`.
pub proof fn lemma_plugin_frames_sound(fs: Seq<FrameModel>)
    ensures
        forall|k: int| 0 <= k < plugin_frames(fs).len() ==> is_plugin_model(#[trigger] plugin_frames(fs)[k])
            && fs.contains(plugin_frames(fs)[k]),
    decreases fs.len(),
{
    if fs.len() > 0 {
        lemma_plugin_frames_sound(fs.drop_last());
        let pf = plugin_frames(fs.drop_last());
        assert forall|k: int| 0 <= k < plugin_frames(fs).len() implies is_plugin_model(
            #[trigger] plugin_frames(fs)[k],
        ) && fs.contains(plugin_frames(fs)[k]) by {
            if k < pf.len() {
                assert(plugin_frames(fs)[k] == pf[k]);
                let j = choose|j: int| 0 <= j < fs.drop_last().len() && fs.drop_last()[j] == pf[k];
                assert(fs[j] == pf[k]);
            } else {
                assert(plugin_frames(fs)[k] == fs.last());
                assert(fs[fs.len() - 1] == fs.last());
            }
        }
    }
}

/// The top plugin frame is never a framework frame: it is a plugin frame
/// of the trace, or there is none.
pub proof fn lemma_top_plugin_frame_is_plugin(levels: Seq<LevelModel>)
    ensures
        top_plugin_frame(levels) matches Some(f) ==> is_plugin_model(f) && chain_frames(levels).contains(f),
        top_plugin_frame(levels) is None ==> forall|k: int|
            0 <= k < chain_frames(levels).len() ==> !is_plugin_model(#[trigger] chain_frames(levels)[k]),
{
    lemma_plugin_frames_sound(chain_frames(levels));
    lemma_plugin_frames_complete(chain_frames(levels));
}

/// A sequence without plugin frames has none to keep; one with a plugin
/// frame keeps at least one.
pub proof fn lemma_plugin_frames_complete(fs: Seq<FrameModel>)
    ensures
        plugin_frames(fs).len() == 0 ==> forall|k: int| 0 <= k < fs.len() ==> !is_plugin_model(#[trigger] fs[k]),
    decreases fs.len(),
{
    if fs.len() > 0 {
        lemma_plugin_frames_complete(fs.drop_last());
        if plugin_frames(fs).len() == 0 {
            assert forall|k: int| 0 <= k < fs.len() implies !is_plugin_model(#[trigger] fs[k]) by {
                if k < fs.len() - 1 {
                    assert(fs[k] == fs.drop_last()[k]);
                }
            }
        }
    }
}

/// `acc` with `x` added unless it is already there.
pub open spec fn add_distinct(acc: Seq<Seq<char>>, x: Seq<char>) -> Seq<Seq<char>> {
    if acc.contains(x) {
        acc
    } else {
        acc.push(x)
    }
}

/// The distinct namespaces of the frames `fs`, in order of first
/// appearance.
pub open spec fn distinct_namespaces(fs: Seq<FrameModel>) -> Seq<Seq<char>>
    decreases fs.len(),
{
    if fs.len() == 0 {
        seq![]
    } else {
        let acc = distinct_namespaces(fs.drop_last());
        match namespace_of(fs.last().class_name) {
            Some(ns) => add_distinct(acc, ns),
            None => acc,
        }
    }
}

/// The distinct plugin namespaces of a cause chain.
pub open spec fn chain_namespaces(levels: Seq<LevelModel>) -> Seq<Seq<char>> {
    distinct_namespaces(plugin_frames(chain_frames(levels)))
}

pub proof fn lemma_plugin_frames_concat(a: Seq<FrameModel>, b: Seq<FrameModel>)
    ensures
        plugin_frames(a + b) == plugin_frames(a) + plugin_frames(b),
    decreases b.len(),
{
    if b.len() == 0 {
        assert(a + b =~= a);
        assert(plugin_frames(b) =~= Seq::<FrameModel>::empty());
        assert(plugin_frames(a) + plugin_frames(b) =~= plugin_frames(a));
    } else {
        lemma_plugin_frames_concat(a, b.drop_last());
        assert((a + b).drop_last() =~= a + b.drop_last());
        assert((a + b).last() == b.last());
        if is_plugin_model(b.last()) {
            assert(plugin_frames(a) + plugin_frames(b) =~= (plugin_frames(a) + plugin_frames(
                b.drop_last(),
            )).push(b.last()));
        }
    }
}

pub proof fn lemma_chain_frames_cons(head: LevelModel, rest: Seq<LevelModel>)
    ensures
        chain_frames(seq![head] + rest) == head.frames + chain_frames(rest),
    decreases rest.len(),
{
    let all = seq![head] + rest;
    if rest.len() == 0 {
        assert(all =~= seq![head]);
        assert(all.drop_last() =~= Seq::<LevelModel>::empty());
        assert(chain_frames(all) == chain_frames(all.drop_last()) + all.last().frames);
        assert(chain_frames(all) =~= head.frames);
        assert(head.frames + chain_frames(rest) =~= head.frames);
    } else {
        lemma_chain_frames_cons(head, rest.drop_last());
        assert(all.drop_last() =~= seq![head] + rest.drop_last());
        assert(all.last() == rest.last());
        assert(chain_frames(all) == chain_frames(all.drop_last()) + all.last().frames);
        assert(chain_frames(rest) == chain_frames(rest.drop_last()) + rest.last().frames);
        assert(head.frames + chain_frames(rest) =~= (head.frames + chain_frames(rest.drop_last()))
            + rest.last().frames);
    }
}

/// How a frame is classified for display.
#[derive(Debug, Clone, Copy, PartialEq, Eq, Structural)]
pub enum FrameKind {
    /// Code of a plugin (a non-framework class with a package).
    Plugin,
    /// Server, Bukkit/Paper or JDK plumbing.
    Framework,
    /// A non-framework class without a package, which no namespace names.
    Unknown,
}

/// The classification of a frame.
pub open spec fn frame_kind(f: FrameModel) -> FrameKind {
    if is_framework_class(f.class_name) {
        FrameKind::Framework
    } else if namespace_of(f.class_name) is Some {
        FrameKind::Plugin
    } else {
        FrameKind::Unknown
    }
}

/// Classifies stack frames.
pub struct FrameFilter;

impl FrameFilter {
    /// Whether the frame's class starts with one of the framework prefixes.
    pub fn is_framework_frame(frame: &StackFrame) -> (r: bool)
        ensures
            r == is_framework_class(frame.class_name@),
    {
        let prefixes = framework_prefix_list();
        let class = chars_of(frame.class_name.as_str());
        let mut i: usize = 0;
        while i < prefixes.len()
            invariant
                i <= prefixes@.len(),
                prefixes@.len() == framework_prefixes().len(),
                forall|k: int| 0 <= k < prefixes@.len() ==> #[trigger] prefixes@[k]@ == framework_prefixes()[k],
                class@ == frame.class_name@,
                forall|k: int| 0 <= k < i ==> !is_prefix(#[trigger] framework_prefixes()[k], class@),
            decreases prefixes@.len() - i,
        {
            let p = chars_of(prefixes[i]);
            if starts_with_chars(&class, &p) {
                assert(is_prefix(framework_prefixes()[i as int], class@));
                return true;
            }
            i = i + 1;
        }
        false
    }

    /// Whether the frame is not a framework frame.
    pub fn is_plugin_frame(frame: &StackFrame) -> (r: bool)
        ensures
            r == is_plugin_model(frame@),
    {
        !Self::is_framework_frame(frame)
    }

    /// Framework, plugin, or (no package to attribute) unknown.
    pub fn classify_frame(frame: &StackFrame) -> (r: FrameKind)
        ensures
            r == frame_kind(frame@),
    {
        if Self::is_framework_frame(frame) {
            FrameKind::Framework
        } else if namespace_of_class(frame.class_name.as_str()).is_some() {
            FrameKind::Plugin
        } else {
            FrameKind::Unknown
        }
    }

    /// The first plugin frame of the trace, searching the outer exception
    /// before its causes; `None` when every frame is a framework frame.
    pub fn find_top_plugin_frame(trace: &StackTraceBlock) -> (r: Option<StackFrame>)
        ensures
            match r {
                Some(f) => top_plugin_frame(trace@) == Some(f@),
                None => top_plugin_frame(trace@) is None,
            },
        decreases trace,
    {
        let ghost rest: Seq<LevelModel> = cause_chain(*trace);
        let ghost fs = frames_view(trace.frames@);
        proof {
            lemma_trace_chain_split(*trace);
            lemma_chain_frames_cons(top_level(*trace), rest);
            lemma_plugin_frames_concat(fs, chain_frames(rest));
        }
        let mut i: usize = 0;
        while i < trace.frames.len()
            invariant
                i <= trace.frames@.len(),
                fs == frames_view(trace.frames@),
                chain_frames(trace@) == fs + chain_frames(rest),
                plugin_frames(fs + chain_frames(rest)) == plugin_frames(fs) + plugin_frames(chain_frames(rest)),
                plugin_frames(fs.take(i as int)) == Seq::<FrameModel>::empty(),
            decreases trace.frames@.len() - i,
        {
            let frame = &trace.frames[i];
            assert(fs.take(i + 1).drop_last() =~= fs.take(i as int));
            assert(fs[i as int] == frame@);
            assert(fs.take(i + 1).last() == frame@);
            if Self::is_plugin_frame(frame) {
                proof {
                    assert(plugin_frames(fs.take(i + 1)) == plugin_frames(fs.take(i as int)).push(frame@));
                    assert(plugin_frames(fs.take(i + 1)) =~= seq![frame@]);
                    assert(fs =~= fs.take(i + 1) + fs.skip(i + 1));
                    lemma_plugin_frames_concat(fs.take(i + 1), fs.skip(i + 1));
                    assert(plugin_frames(fs)[0] == frame@);
                    assert(plugin_frames(chain_frames(trace@))[0] == frame@);
                }
                return Some(frame.duplicate());
            }
            i = i + 1;
        }
        assert(fs.take(i as int) =~= fs);
        match &trace.caused_by {
            Some(c) => {
                let r = Self::find_top_plugin_frame(&**c);
                assert(plugin_frames(fs) + plugin_frames(chain_frames(rest)) =~= plugin_frames(
                    chain_frames(rest),
                ));
                r
            },
            None => {
                assert(chain_frames(rest) =~= Seq::<FrameModel>::empty());
                assert(plugin_frames(fs) + plugin_frames(chain_frames(rest)) =~= Seq::<
                    FrameModel,
                >::empty());
                None
            },
        }
    }

    /// The distinct plugin namespaces of the trace's plugin frames, in order
    /// of first appearance.
    pub fn collect_plugin_namespaces(trace: &StackTraceBlock) -> (r: Vec<String>)
        ensures
            views_of(r@) == chain_namespaces(trace@),
    {
        let mut frames: Vec<StackFrame> = Vec::new();
        Self::collect_plugin_frames(trace, &mut frames);
        let ghost pf = frames_view(frames@);
        let mut namespaces: Vec<String> = Vec::new();
        let mut i: usize = 0;
        while i < frames.len()
            invariant
                i <= frames@.len(),
                pf == frames_view(frames@),
                views_of(namespaces@) == distinct_namespaces(pf.take(i as int)),
            decreases frames@.len() - i,
        {
            let ghost before = views_of(namespaces@);
            assert(pf.take(i + 1).drop_last() =~= pf.take(i as int));
            assert(pf.take(i + 1).last() == frames@[i as int]@);
            match namespace_of_class(frames[i].class_name.as_str()) {
                Some(ns) => {
                    if !contains_string(&namespaces, &ns) {
                        namespaces.push(ns);
                        assert(views_of(namespaces@) =~= before.push(ns@));
                    }
                },
                None => {},
            }
            i = i + 1;
        }
        assert(pf.take(i as int) =~= pf);
        namespaces
    }

    /// Appends the plugin frames of the trace, outer exception first.
    fn collect_plugin_frames(trace: &StackTraceBlock, out: &mut Vec<StackFrame>)
        ensures
            frames_view(final(out)@) == frames_view(old(out)@) + plugin_frames(chain_frames(trace@)),
        decreases trace,
    {
        let ghost rest: Seq<LevelModel> = cause_chain(*trace);
        let ghost fs = frames_view(trace.frames@);
        let ghost start = frames_view(out@);
        proof {
            lemma_trace_chain_split(*trace);
            lemma_chain_frames_cons(top_level(*trace), rest);
            lemma_plugin_frames_concat(fs, chain_frames(rest));
        }
        let mut i: usize = 0;
        while i < trace.frames.len()
            invariant
                i <= trace.frames@.len(),
                fs == frames_view(trace.frames@),
                frames_view(out@) == start + plugin_frames(fs.take(i as int)),
            decreases trace.frames@.len() - i,
        {
            let frame = &trace.frames[i];
            assert(fs.take(i + 1).drop_last() =~= fs.take(i as int));
            assert(fs[i as int] == frame@);
            assert(fs.take(i + 1).last() == frame@);
            if Self::is_plugin_frame(frame) {
                let ghost prev = out@;
                out.push(frame.duplicate());
                assert(frames_view(out@) =~= frames_view(prev).push(frame@));
                assert(plugin_frames(fs.take(i + 1)) == plugin_frames(fs.take(i as int)).push(frame@));
                assert(frames_view(out@) =~= start + plugin_frames(fs.take(i + 1)));
            }
            i = i + 1;
        }
        assert(fs.take(i as int) =~= fs);
        match &trace.caused_by {
            Some(c) => {
                Self::collect_plugin_frames(&**c, out);
                assert(frames_view(out@) =~= start + (plugin_frames(fs) + plugin_frames(
                    chain_frames(rest),
                )));
            },
            None => {
                assert(chain_frames(rest) =~= Seq::<FrameModel>::empty());
                assert(frames_view(out@) =~= start + (plugin_frames(fs) + plugin_frames(
                    chain_frames(rest),
                )));
            },
        }
    }
}

/// The plugin namespace of a class name.
pub fn namespace_of_class(class_name: &str) -> (r: Option<String>)
    ensures
        opt_seq(r) == namespace_of(class_name@),
{
    let s = chars_of(class_name);
    if rfind_char(&s, '.').is_none() {
        return None;
    }
    let mut i: usize = 0;
    let mut dots: usize = 0;
    while i < s.len()
        invariant
            i <= s@.len(),
            dots <= 2,
            namespace_end(s@, i as int, dots as nat) == namespace_end(s@, 0, 0),
        ensures
            namespace_end(s@, 0, 0) == i as int,
            i <= s@.len(),
        decreases s@.len() - i,
    {
        if s[i] == '.' {
            if dots == 2 {
                break;
            }
            dots = dots + 1;
        }
        i = i + 1;
    }
    Some(string_of(&slice_chars(&s, 0, i)))
}

/// The view of an optional string.
pub open spec fn opt_seq(o: Option<String>) -> Option<Seq<char>> {
    match o {
        Some(s) => Some(s@),
        None => None,
    }
}

/// Whether `v` holds a string equal to `s`.
pub fn contains_string(v: &Vec<String>, s: &String) -> (r: bool)
    ensures
        r == views_of(v@).contains(s@),
{
    let target = chars_of(s.as_str());
    let mut i: usize = 0;
    while i < v.len()
        invariant
            i <= v@.len(),
            target@ == s@,
            forall|k: int| 0 <= k < i ==> v@[k]@ != s@,
        decreases v@.len() - i,
    {
        if chars_equal(&chars_of(v[i].as_str()), &target) {
            assert(views_of(v@)[i as int] == s@);
            return true;
        }
        i = i + 1;
    }
    assert forall|k: int| 0 <= k < v@.len() implies #[trigger] views_of(v@)[k] != s@ by {}
    false
}

} // verus!
