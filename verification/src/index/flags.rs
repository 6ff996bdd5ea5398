//! Per-line flag bits recorded by the columnar index.
use vstd::prelude::*;

verus! {

/// The line parsed as a JSON object.
pub const FLAG_FORMAT_JSON: u32 = 0x10;

/// The line parsed as logfmt `key=value` pairs.
pub const FLAG_FORMAT_LOGFMT: u32 = 0x20;

} // verus!
