//! Command-line options and terminal output.

pub mod args;
pub mod renderer;

pub use args::CliArgs;
pub use renderer::TerminalRenderer;
