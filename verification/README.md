# lazytail

The core of a terminal log viewer, written in Verus: the functions under
`src/` carry contracts and are proved against them, except the small
trusted wrappers (marked `external_body`) through which the library calls
`std` and the outside crates; their contracts are believed, and each one's
doc comment says what it claims of the call.

- `src/` — the library. Viewport navigation and per-tab view state, line
  buffers and sparse line indexes, merging of sources by timestamp, log line
  rendering through presets (field extraction, formatters, styles), ANSI
  stripping, text wrapping, themes, the text of the MCP tool responses, the
  lines of the status bar and of the help, stats and source panels,
  source naming and the session and update-check records. Calls into
  `regex`, `serde_json`, `unicode-width`, `memchr`, `dirs` and
  `ansi-to-tui` go through small trusted wrappers whose contracts are
  documented where they are declared.
- `app/` — plain Rust around the library: file and memory-mapped readers,
  file watching, signals, configuration and state files (serde), the
  update download, and the conversion of styled spans to `ratatui` lines.
- `tests/` — tests run against the compiled library.

Public proof functions (`lemma_*`) state the laws the library keeps, such
as what a buffer gives back after a push, that wrapping keeps the text, that
calendar conversion round-trips both ways, that merging the lines
sources gained agrees with a rebuild, and that stripping rendered segments gives
back their plain text.
