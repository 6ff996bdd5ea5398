//! Verified core of a terminal log viewer: viewport navigation, line
//! buffers and indexes, timestamp merging, text formatting helpers.
pub mod viewport;
pub mod reader;
pub mod text;
pub mod index;
pub mod test_utils;
pub mod renderer;
pub mod mcp;
pub mod ansi;
pub mod update;
pub mod source;
pub mod session;
pub mod text_wrap;
pub mod parsing;
pub mod tab;
pub mod watcher;
pub mod ui;
pub mod theme;
