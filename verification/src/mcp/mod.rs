//! Model Context Protocol tool support: request and response types, text
//! formatting and response post-processing.
pub mod ansi;
pub mod flexible_usize;
pub mod format;
pub mod response;
pub mod types;
pub mod tools;
