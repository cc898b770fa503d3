//! Command-line options.

use vstd::prelude::*;

verus! {

/// The options of a run: the log file (standard input when absent), a
/// level and a plugin to keep, whether to print the summary tables only,
/// and whether to leave out ANSI colors.
#[derive(Debug, Clone, PartialEq, Eq)]
pub struct CliArgs {
    pub file: Option<String>,
    pub level: Option<String>,
    pub plugin: Option<String>,
    pub summary_only: bool,
    pub no_color: bool,
}

} // verus!
