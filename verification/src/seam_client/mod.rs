//! A small client of the terminal daemon, and the probe that drives it.

pub mod messages;
pub mod probe;
