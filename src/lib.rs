//! A countdown timer: duration tokens are parsed and summed, and a small
//! state machine drives the countdown and the completion protocol.

pub mod duration;
pub mod engine;
pub mod run;
pub mod text;

pub use duration::{parse_time, total_seconds, ErrorKind, ParseError};
pub use engine::{completion_line, completion_summary, Action, Engine, Event, InternalState, Phase};
