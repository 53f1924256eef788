//! Work-time tracking: clock entries are parsed, ordered, paired into spans,
//! summed, and compared against a target duration.

pub mod args;
pub mod clock;
pub mod modes;
pub mod moment;
pub mod parse;
pub mod report;
pub mod session;
pub mod span;
pub mod text;
