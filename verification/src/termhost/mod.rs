//! The orchestrator's side of the terminal daemon: its protocol, the client
//! state folded from its events, and the supervision of the daemon process.

pub mod base64_text;
pub mod backend;
pub mod client;
pub mod grid;
pub mod proto;
pub mod supervisor;
