//! Per-line metadata of a log source's columnar index, as the merge and
//! rendering logic reads it.
pub mod flags;
use vstd::prelude::*;

verus! {

/// Severity level recorded for a line.
#[derive(Debug, Clone, Copy, PartialEq, Eq, Structural)]
pub enum Severity {
    Unknown,
    Trace,
    Debug,
    Info,
    Warn,
    Error,
    Fatal,
}

/// Index data for one log source: the arrival timestamp (epoch ms) and the
/// severity of each indexed line. The index may lag behind the log, so it
/// can cover fewer lines than the source holds.
#[derive(Debug, Clone)]
pub struct IndexReader {
    timestamps: Vec<u64>,
    severities: Vec<Severity>,
    flags: Vec<u32>,
}

/// The name a severity is shown with (none for an unknown severity).
pub open spec fn severity_label(s: Severity) -> Option<Seq<char>> {
    match s {
        Severity::Unknown => None,
        Severity::Trace => Some("trace"@),
        Severity::Debug => Some("debug"@),
        Severity::Info => Some("info"@),
        Severity::Warn => Some("warn"@),
        Severity::Error => Some("error"@),
        Severity::Fatal => Some("fatal"@),
    }
}

impl Severity {
    /// The name the severity is shown with (none for `Unknown`).
    pub fn label(&self) -> (r: Option<&'static str>)
        ensures
            match r {
                Some(t) => severity_label(*self) == Some(t@),
                None => severity_label(*self) is None,
            },
    {
        match self {
            Severity::Unknown => None,
            Severity::Trace => Some("trace"),
            Severity::Debug => Some("debug"),
            Severity::Info => Some("info"),
            Severity::Warn => Some("warn"),
            Severity::Error => Some("error"),
            Severity::Fatal => Some("fatal"),
        }
    }
}

impl IndexReader {
    /// Timestamps of the indexed lines.
    pub closed spec fn spec_timestamps(&self) -> Seq<u64> {
        self.timestamps@
    }

    /// Severities of the indexed lines.
    pub closed spec fn spec_severities(&self) -> Seq<Severity> {
        self.severities@
    }

    /// Flag bits of the indexed lines.
    pub closed spec fn spec_flags(&self) -> Seq<u32> {
        self.flags@
    }

    /// Index data built from per-line timestamps and severities.
    pub fn new(timestamps: Vec<u64>, severities: Vec<Severity>) -> (r: Self)
        ensures
            r.spec_timestamps() == timestamps@,
            r.spec_severities() == severities@,
            r.spec_flags().len() == 0,
    {
        IndexReader { timestamps, severities, flags: Vec::new() }
    }

    /// Index data built from per-line timestamps, severities and flag bits.
    pub fn from_columns(timestamps: Vec<u64>, severities: Vec<Severity>, flags: Vec<u32>) -> (r: Self)
        ensures
            r.spec_timestamps() == timestamps@,
            r.spec_severities() == severities@,
            r.spec_flags() == flags@,
    {
        IndexReader { timestamps, severities, flags }
    }

    /// Flag bits of a line, when the index covers it.
    pub fn flags(&self, line: usize) -> (r: Option<u32>)
        ensures
            r == if line < self.spec_flags().len() {
                Some(self.spec_flags()[line as int])
            } else {
                None::<u32>
            },
    {
        if line < self.flags.len() {
            Some(self.flags[line])
        } else {
            None
        }
    }

    /// Index data holding only timestamps.
    pub fn with_timestamps(timestamps: &[u64]) -> (r: Self)
        ensures
            r.spec_timestamps() == timestamps@,
            r.spec_severities().len() == 0,
    {
        let mut ts: Vec<u64> = Vec::new();
        let mut i: usize = 0;
        while i < timestamps.len()
            invariant
                0 <= i <= timestamps@.len(),
                ts@ == timestamps@.subrange(0, i as int),
            decreases timestamps@.len() - i,
        {
            ts.push(timestamps[i]);
            i = i + 1;
        }
        proof {
            assert(timestamps@.subrange(0, timestamps@.len() as int) == timestamps@);
        }
        IndexReader { timestamps: ts, severities: Vec::new(), flags: Vec::new() }
    }

    /// Number of indexed lines.
    pub fn len(&self) -> (r: usize)
        ensures
            r == self.spec_timestamps().len(),
    {
        self.timestamps.len()
    }

    /// Timestamp of a line, when the index covers it.
    pub fn get_timestamp(&self, line: usize) -> (r: Option<u64>)
        ensures
            r == if line < self.spec_timestamps().len() {
                Some(self.spec_timestamps()[line as int])
            } else {
                None::<u64>
            },
    {
        if line < self.timestamps.len() {
            Some(self.timestamps[line])
        } else {
            None
        }
    }

    /// Severity of a line; `Unknown` when the index does not cover it.
    pub fn severity(&self, line: usize) -> (r: Severity)
        ensures
            r == if line < self.spec_severities().len() {
                self.spec_severities()[line as int]
            } else {
                Severity::Unknown
            },
    {
        if line < self.severities.len() {
            self.severities[line]
        } else {
            Severity::Unknown
        }
    }
}

} // verus!
