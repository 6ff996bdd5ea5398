//! ANSI escape code stripping for MCP responses: escape sequences only
//! cost tokens in text meant for a model, so responses carry plain text.
pub use crate::ansi::strip_ansi;
