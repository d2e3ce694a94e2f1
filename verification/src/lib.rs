//! The orchestrator's half of a terminal multiplexer whose terminals live in a
//! separate daemon: the wire protocol, the pane grids folded from its frames,
//! the mirrored input modes and the decisions a pane runtime takes.

pub mod text;
pub mod kitty_keyboard;
pub mod wire;
pub mod input;
pub mod terminal;
pub mod termhost;
pub mod pane;
pub mod seam_client;
