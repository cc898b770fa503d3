//! From raw text lines to log events.

pub mod line_parser;
pub mod reader;
pub mod state_machine;

pub use line_parser::{LineParser, ParsedLine};
pub use reader::{LogStreamReader, ReadStep};
pub use state_machine::{ParsedEvent, StateMachineParser};
