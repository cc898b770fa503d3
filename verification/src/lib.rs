//! Streaming analysis of Minecraft and Java server logs: line classification,
//! stack-trace grouping, error fingerprinting and deduplication.

pub mod text;
pub mod models;
pub mod patterns;
pub mod parser;
pub mod engine;
pub mod cli;

pub use cli::{CliArgs, TerminalRenderer};
pub use engine::{
    AggregationEngine, AggregationStats, ExtractedPluginInfo, FingerprintGenerator, FrameFilter,
    MinecraftRules,
};
pub use models::{AggregatedError, LogLevel, LogLine, StackFrame, StackTraceBlock};
pub use parser::{LineParser, LogStreamReader, ParsedEvent, ParsedLine, StateMachineParser};
