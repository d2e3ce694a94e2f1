//! A pane: what to launch in it, its local terminal-side state, and the runtime
//! that ties it to the daemon.

pub mod command;
pub mod cwd;
pub mod double;
pub mod fake_content;
pub mod fake_terminal;
pub mod handoff;
pub mod input_mirror;
pub mod launch;
pub mod render;
pub mod runtime;
pub mod runtime_ops;
pub mod screen;
pub mod shell;
pub mod shutdown;
pub mod terminal;
pub mod vt;
