//! Error signatures: a 64-bit hash for fast lookup, and a structural
//! identity that tells apart errors whose hashes collide.

use vstd::prelude::*;
use vstd::bytes::{spec_u32_to_le_bytes, u32_to_le_bytes};
use vstd::std_specs::hash::DefaultHasherAdditionalSpecFns;
use vstd::utf8::encode_utf8;
use std::collections::hash_map::DefaultHasher;
use std::hash::Hasher;
use crate::engine::frame_filter::{top_plugin_frame, FrameFilter};
use crate::models::stack_trace::{FrameModel, LevelModel, StackFrame, StackTraceBlock};
use crate::models::error_event::opt_frame_view;
use crate::patterns::{regex_replace_all, regex_replaced};
use crate::text::{decimal, push_decimal, push_str};

verus! {

/// A UUID in any case.
pub const UUID_PATTERN: &'static str = r"(?i)\b[0-9a-f]{8}-[0-9a-f]{4}-[0-9a-f]{4}-[0-9a-f]{4}-[0-9a-f]{12}\b";

/// A date-time or a clock time, with optional fractions of a second.
pub const TIME_PATTERN: &'static str = r"\b\d{4}-\d{2}-\d{2}[ T]\d{2}:\d{2}:\d{2}(?:\.\d+)?\b|\b\d{2}:\d{2}:\d{2}(?:\.\d+)?\b";

/// An object address: `@0x..`, `@` and 6 to 16 hex digits, or `0x` and 4
/// to 16 hex digits.
pub const ADDR_PATTERN: &'static str = r"(?i)(?:@0x[0-9a-f]+|@[0-9a-f]{6,16}|\b0x[0-9a-f]{4,16}\b)";

/// A player coordinate (`x=1.5`, `yaw: -90`) or a `(x, y, z)` triple.
pub const COORD_PATTERN: &'static str = r"(?i)\b(?:x|y|z|pitch|yaw)\s*[:=]\s*[-+]?\d*\.?\d+\b|\(\s*[-+]?\d+\.\d+,\s*[-+]?\d+\.\d+,\s*[-+]?\d+\.\d+\s*\)";

/// The identity under which errors are aggregated.
#[derive(Debug, Clone, PartialEq, Eq, Hash)]
pub struct ErrorSignatureKey {
    pub hash: u64,
    pub structural_identity: String,
}

/// The content of a signature key.
pub struct KeyModel {
    pub hash: u64,
    pub structural_identity: Seq<char>,
}

impl View for ErrorSignatureKey {
    type V = KeyModel;

    open spec fn view(&self) -> KeyModel {
        KeyModel { hash: self.hash, structural_identity: self.structural_identity@ }
    }
}

/// `s` with every match of `pattern` replaced, or `s` itself when the
/// pattern does not compile.
pub open spec fn replaced_or_kept(pattern: Seq<char>, s: Seq<char>, replacement: Seq<char>) -> Seq<
    char,
> {
    match regex_replaced(pattern, s, replacement) {
        Some(r) => r,
        None => s,
    }
}

/// `s` with UUIDs, times, addresses and coordinates replaced by the tokens
/// `<UUID>`, `<TIME>`, `<ADDR>` and `<COORD>`, in that order.
pub open spec fn normalized(s: Seq<char>) -> Seq<char> {
    replaced_or_kept(
        COORD_PATTERN@,
        replaced_or_kept(
            ADDR_PATTERN@,
            replaced_or_kept(TIME_PATTERN@, replaced_or_kept(UUID_PATTERN@, s, "<UUID>"@), "<TIME>"@),
            "<ADDR>"@,
        ),
        "<COORD>"@,
    )
}

fn replace_or_keep(pattern: &str, s: String, replacement: &str) -> (r: String)
    ensures
        r@ == replaced_or_kept(pattern@, s@, replacement@),
{
    match regex_replace_all(pattern, s.as_str(), replacement) {
        Some(r) => r,
        None => s,
    }
}

/// Replaces the parts of a message that change from one occurrence of an
/// error to the next (UUIDs, timestamps, addresses, coordinates) by fixed
/// tokens; numbers with meaning (status codes, ports, versions) stay.
pub fn normalize_dynamic_noise(input: &str) -> (r: String)
    ensures
        r@ == normalized(input@),
{
    let s = replace_or_keep(UUID_PATTERN, input.to_owned(), "<UUID>");
    let s = replace_or_keep(TIME_PATTERN, s, "<TIME>");
    let s = replace_or_keep(ADDR_PATTERN, s, "<ADDR>");
    replace_or_keep(COORD_PATTERN, s, "<COORD>")
}

/// The view of an optional string slice.
pub open spec fn opt_str_view(o: Option<&str>) -> Option<Seq<char>> {
    match o {
        Some(s) => Some(s@),
        None => None,
    }
}

/// `o`'s text, or the empty text.
pub open spec fn or_empty(o: Option<Seq<char>>) -> Seq<char> {
    match o {
        Some(s) => s,
        None => Seq::empty(),
    }
}

/// `class.method:file:line` of a frame (empty file and line 0 when
/// unknown).
pub open spec fn frame_identity(f: FrameModel) -> Seq<char> {
    f.class_name + "."@ + f.method_name + ":"@ + or_empty(f.file_name) + ":"@ + decimal(
        match f.line_number {
            Some(l) => l as nat,
            None => 0,
        },
    )
}

/// `exception|plugin|frame|normalized message`, the structural identity of
/// an error.
pub open spec fn structural_identity(
    primary_exception: Seq<char>,
    plugin_name: Option<Seq<char>>,
    top_frame: Option<FrameModel>,
    raw_message: Option<Seq<char>>,
) -> Seq<char> {
    primary_exception + "|"@ + or_empty(plugin_name) + "|"@ + match top_frame {
        Some(f) => frame_identity(f),
        None => Seq::empty(),
    } + "|"@ + match raw_message {
        Some(m) => normalized(m),
        None => Seq::empty(),
    }
}

/// The writes that hashing a string makes: its UTF-8 bytes, then `0xff`.
pub open spec fn str_writes(s: Seq<char>) -> Seq<Seq<u8>> {
    seq![encode_utf8(s), seq![0xffu8]]
}

/// The writes that make up a signature: the exception, the plugin when
/// known, and the top frame's class, method, file and line when known.
pub open spec fn signature_writes(
    primary_exception: Seq<char>,
    plugin_name: Option<Seq<char>>,
    top_frame: Option<FrameModel>,
) -> Seq<Seq<u8>> {
    str_writes(primary_exception) + match plugin_name {
        Some(p) => str_writes(p),
        None => Seq::empty(),
    } + match top_frame {
        Some(f) => str_writes(f.class_name) + str_writes(f.method_name) + match f.file_name {
            Some(file) => str_writes(file),
            None => Seq::empty(),
        } + match f.line_number {
            Some(l) => seq![spec_u32_to_le_bytes(l)],
            None => Seq::empty(),
        },
        None => Seq::empty(),
    }
}

/// The 64-bit signature of an error: std's `DefaultHasher` over the
/// signature writes.
pub open spec fn signature_of(
    primary_exception: Seq<char>,
    plugin_name: Option<Seq<char>>,
    top_frame: Option<FrameModel>,
) -> u64 {
    DefaultHasher::spec_finish(signature_writes(primary_exception, plugin_name, top_frame))
}

/// The view of an optional frame reference.
pub open spec fn opt_frame_ref_view(o: Option<&StackFrame>) -> Option<FrameModel> {
    match o {
        Some(f) => Some(f@),
        None => None,
    }
}

/// Hashes a string as `str`'s `Hash` does: its bytes, then `0xff`.
fn hash_str(h: &mut DefaultHasher, s: &str)
    ensures
        final(h)@ == old(h)@ + str_writes(s@),
{
    let ghost start = h@;
    h.write(s.as_bytes());
    let mut end: Vec<u8> = Vec::new();
    end.push(0xffu8);
    assert(end@ =~= seq![0xffu8]);
    h.write(end.as_slice());
    assert(h@ =~= start + str_writes(s@));
}

/// Builds error signatures.
pub struct FingerprintGenerator;

impl FingerprintGenerator {
    /// `exception|plugin|class.method:file:line|normalized message`.
    pub fn build_structural_identity(
        primary_exception: &str,
        plugin_name: Option<&str>,
        top_frame: Option<&StackFrame>,
        raw_message: Option<&str>,
    ) -> (r: String)
        ensures
            r@ == structural_identity(
                primary_exception@,
                opt_str_view(plugin_name),
                opt_frame_ref_view(top_frame),
                opt_str_view(raw_message),
            ),
    {
        let mut out = String::new();
        push_str(&mut out, primary_exception);
        push_str(&mut out, "|");
        match plugin_name {
            Some(p) => push_str(&mut out, p),
            None => {},
        }
        push_str(&mut out, "|");
        match top_frame {
            Some(f) => {
                push_str(&mut out, f.class_name.as_str());
                push_str(&mut out, ".");
                push_str(&mut out, f.method_name.as_str());
                push_str(&mut out, ":");
                match &f.file_name {
                    Some(file) => push_str(&mut out, file.as_str()),
                    None => {},
                }
                push_str(&mut out, ":");
                let line: u64 = match f.line_number {
                    Some(l) => l as u64,
                    None => 0,
                };
                push_decimal(&mut out, line);
            },
            None => {},
        }
        push_str(&mut out, "|");
        match raw_message {
            Some(m) => {
                let norm = normalize_dynamic_noise(m);
                push_str(&mut out, norm.as_str());
            },
            None => {},
        }
        assert(out@ =~= structural_identity(
            primary_exception@,
            opt_str_view(plugin_name),
            opt_frame_ref_view(top_frame),
            opt_str_view(raw_message),
        ));
        out
    }

    /// The 64-bit signature of an exception raised at `top_frame` by
    /// `plugin_name`: the same inputs always give the same signature.
    pub fn generate_signature(
        primary_exception: &str,
        plugin_name: Option<&str>,
        top_frame: Option<&StackFrame>,
    ) -> (r: u64)
        ensures
            r == signature_of(primary_exception@, opt_str_view(plugin_name), opt_frame_ref_view(top_frame)),
    {
        let mut hasher = DefaultHasher::new();
        hash_str(&mut hasher, primary_exception);
        match plugin_name {
            Some(p) => hash_str(&mut hasher, p),
            None => {},
        }
        match top_frame {
            Some(f) => {
                hash_str(&mut hasher, f.class_name.as_str());
                hash_str(&mut hasher, f.method_name.as_str());
                match &f.file_name {
                    Some(file) => hash_str(&mut hasher, file.as_str()),
                    None => {},
                }
                match f.line_number {
                    Some(l) => {
                        let bytes = u32_to_le_bytes(l);
                        hasher.write(bytes.as_slice());
                    },
                    None => {},
                }
            },
            None => {},
        }
        assert(hasher@ =~= signature_writes(
            primary_exception@,
            opt_str_view(plugin_name),
            opt_frame_ref_view(top_frame),
        ));
        hasher.finish()
    }

    /// The signature key of an error and the top plugin frame of its trace.
    pub fn compute_for_trace(
        primary_exception: &str,
        plugin_name: Option<&str>,
        raw_message: Option<&str>,
        trace: &StackTraceBlock,
    ) -> (r: (ErrorSignatureKey, Option<StackFrame>))
        ensures
            opt_frame_view(r.1) == top_plugin_frame(trace@),
            r.0.hash == signature_of(primary_exception@, opt_str_view(plugin_name), top_plugin_frame(trace@)),
            r.0.structural_identity@ == structural_identity(
                primary_exception@,
                opt_str_view(plugin_name),
                top_plugin_frame(trace@),
                opt_str_view(raw_message),
            ),
    {
        let top_frame = FrameFilter::find_top_plugin_frame(trace);
        let hash = Self::generate_signature(primary_exception, plugin_name, top_frame.as_ref());
        let structural_identity = Self::build_structural_identity(
            primary_exception,
            plugin_name,
            top_frame.as_ref(),
            raw_message,
        );
        (ErrorSignatureKey { hash, structural_identity }, top_frame)
    }
}

/// The signature depends on its inputs alone: equal exceptions, plugins
/// and top frames give equal signatures.
pub proof fn lemma_signature_deterministic(
    e1: Seq<char>,
    p1: Option<Seq<char>>,
    f1: Option<FrameModel>,
    e2: Seq<char>,
    p2: Option<Seq<char>>,
    f2: Option<FrameModel>,
)
    requires
        e1 == e2,
        p1 == p2,
        f1 == f2,
    ensures
        signature_of(e1, p1, f1) == signature_of(e2, p2, f2),
{
}

/// Two keys are the same only when both their hashes and their structural
/// identities agree: errors whose hashes collide stay apart.
pub proof fn lemma_keys_distinguish_collisions(k1: ErrorSignatureKey, k2: ErrorSignatureKey)
    requires
        k1.hash == k2.hash,
        k1.structural_identity@ != k2.structural_identity@,
    ensures
        k1@ != k2@,
{
}

} // verus!
