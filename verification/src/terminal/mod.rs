//! Plain-data terminal types shared by the pane and daemon sides.

pub mod types;
