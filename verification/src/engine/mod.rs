//! Classification, fingerprinting and aggregation of errors.

pub mod aggregation;
pub mod fingerprint;
pub mod frame_filter;
pub mod minecraft_rules;
pub mod ordering;

pub use aggregation::{AggregationEngine, AggregationStats, AnalysisReport, PluginCount};
pub use fingerprint::FingerprintGenerator;
pub use frame_filter::FrameFilter;
pub use minecraft_rules::{ExtractedPluginInfo, MinecraftRules};
