use vstd::prelude::*;

verus! {

/// Sparse index entry - one per `interval` lines
#[derive(Clone, Copy, Debug)]
pub struct IndexEntry {
    /// Line number (supports up to 4 billion lines)
    pub line_number: u32,
    /// Byte offset in the file where this line starts
    pub byte_offset: u64,
}

/// Sparse line index with configurable interval
///
/// Instead of storing byte offset for every line (O(n) memory),
/// we store only every Nth line (O(n/interval) memory).
/// For 100M lines with interval=10000, this uses ~120KB instead of ~800MB.
#[derive(Debug)]
pub struct SparseIndex {
    /// Indexed entries (one per `interval` lines)
    entries: Vec<IndexEntry>,
    /// Lines between index entries (default: 10,000)
    interval: usize,
    /// Total number of lines in the file
    total_lines: usize,
    /// Byte offset at end of last indexed region (for incremental indexing)
    last_indexed_offset: u64,
}

impl SparseIndex {
    #[verifier::type_invariant]
    spec fn inv(self) -> bool {
        self.interval >= 1
    }

    /// The entries, in the order they were appended.
    pub closed spec fn spec_entries(&self) -> Seq<IndexEntry> {
        self.entries@
    }

    pub closed spec fn spec_interval(&self) -> usize {
        self.interval
    }

    pub closed spec fn spec_total_lines(&self) -> usize {
        self.total_lines
    }

    pub closed spec fn spec_last_offset(&self) -> u64 {
        self.last_indexed_offset
    }

    /// Position in the entry list of the entry that `locate(line)` starts
    /// from, or `None` when it starts from the beginning of the file.
    pub open spec fn entry_for(&self, line: usize) -> Option<int> {
        let n = self.spec_entries().len();
        let chunk = line / self.spec_interval();
        if n == 0 || line == 0 || chunk == 0 {
            None
        } else if chunk <= n {
            Some(chunk - 1)
        } else {
            Some(n - 1)
        }
    }

    /// What `locate(line)` answers: the byte offset to seek to and the
    /// number of lines to skip after it.
    pub open spec fn spec_locate(&self, line: usize) -> (u64, int) {
        match self.entry_for(line) {
            None => (0u64, line as int),
            Some(k) => (
                self.spec_entries()[k].byte_offset,
                line - self.spec_entries()[k].line_number,
            ),
        }
    }

    /// Create a new sparse index with the given interval
    pub fn new(interval: usize) -> (r: Self)
        ensures
            r.spec_entries().len() == 0,
            r.spec_interval() == if interval >= 1 { interval } else { 1 },
            r.spec_total_lines() == 0,
            r.spec_last_offset() == 0,
    {
        SparseIndex {
            entries: Vec::new(),
            interval: if interval >= 1 { interval } else { 1 },
            total_lines: 0,
            last_indexed_offset: 0,
        }
    }

    /// Get the indexing interval
    pub fn interval(&self) -> (r: usize)
        ensures
            r == self.spec_interval(),
            r >= 1,
    {
        proof {
            use_type_invariant(self);
        }
        self.interval
    }

    /// Get total number of lines
    pub fn total_lines(&self) -> (r: usize)
        ensures
            r == self.spec_total_lines(),
    {
        self.total_lines
    }

    /// Set total lines (called after scanning)
    pub fn set_total_lines(&mut self, total: usize)
        ensures
            final(self).spec_total_lines() == total,
            final(self).spec_entries() == old(self).spec_entries(),
            final(self).spec_interval() == old(self).spec_interval(),
            final(self).spec_last_offset() == old(self).spec_last_offset(),
    {
        proof {
            use_type_invariant(&*self);
        }
        self.total_lines = total;
    }

    /// Find byte offset for a line number
    /// Returns (nearest_indexed_offset, lines_to_skip)
    pub fn locate(&self, line: usize) -> (r: (u64, usize))
        requires
            self.entry_for(line) matches Some(k) ==> self.spec_entries()[k].line_number <= line,
        ensures
            r.0 == self.spec_locate(line).0,
            r.1 == self.spec_locate(line).1,
    {
        proof {
            use_type_invariant(self);
        }
        if self.entries.len() == 0 || line == 0 {
            return (0, line);
        }
        let chunk = line / self.interval;
        if chunk == 0 {
            (0, line)
        } else if chunk <= self.entries.len() {
            let entry = self.entries[chunk - 1];
            let skip = line - entry.line_number as usize;
            (entry.byte_offset, skip)
        } else {
            let last = self.entries[self.entries.len() - 1];
            let skip = line - last.line_number as usize;
            (last.byte_offset, skip)
        }
    }

    /// Append a new index entry (called every `interval` lines during scanning)
    pub fn append(&mut self, line_number: usize, byte_offset: u64)
        ensures
            final(self).spec_entries() == old(self).spec_entries().push(
                IndexEntry { line_number: line_number as u32, byte_offset },
            ),
            final(self).spec_last_offset() == byte_offset,
            final(self).spec_interval() == old(self).spec_interval(),
            final(self).spec_total_lines() == old(self).spec_total_lines(),
    {
        proof {
            use_type_invariant(&*self);
        }
        let mut entries = Vec::new();
        std::mem::swap(&mut entries, &mut self.entries);
        entries.push(IndexEntry { line_number: #[verifier::truncate] (line_number as u32), byte_offset });
        self.entries = entries;
        self.last_indexed_offset = byte_offset;
    }

    /// Get the byte offset where incremental indexing should resume
    pub fn last_indexed_offset(&self) -> (r: u64)
        ensures
            r == self.spec_last_offset(),
    {
        self.last_indexed_offset
    }

    /// Get the line number of the last indexed entry
    pub fn last_indexed_line(&self) -> (r: usize)
        ensures
            self.spec_entries().len() == 0 ==> r == 0,
            self.spec_entries().len() > 0 ==> r == self.spec_entries().last().line_number,
    {
        if self.entries.len() == 0 {
            0
        } else {
            self.entries[self.entries.len() - 1].line_number as usize
        }
    }

    /// Clear the index (for reload after truncation)
    pub fn clear(&mut self)
        ensures
            final(self).spec_entries().len() == 0,
            final(self).spec_total_lines() == 0,
            final(self).spec_last_offset() == 0,
            final(self).spec_interval() == old(self).spec_interval(),
    {
        proof {
            use_type_invariant(&*self);
        }
        self.entries = Vec::new();
        self.total_lines = 0;
        self.last_indexed_offset = 0;
    }

    /// Get memory usage in bytes (approximate)
    pub fn memory_usage(&self) -> (r: usize)
        requires
            self.spec_entries().len() * vstd::layout::size_of::<IndexEntry>()
                + vstd::layout::size_of::<SparseIndex>() <= usize::MAX,
        ensures
            r == self.spec_entries().len() * vstd::layout::size_of::<IndexEntry>()
                + vstd::layout::size_of::<SparseIndex>(),
    {
        self.entries.len() * std::mem::size_of::<IndexEntry>() + std::mem::size_of::<Self>()
    }

    /// Get number of index entries
    pub fn entry_count(&self) -> (r: usize)
        ensures
            r == self.spec_entries().len(),
    {
        self.entries.len()
    }
}

/// When entries were appended at every `interval`-th line (the scanning
/// discipline), `locate` starts from the indexed line at or before the
/// requested one and skips `line % interval` lines.
pub proof fn lemma_locate_regular(index: SparseIndex, line: usize)
    requires
        index.spec_interval() >= 1,
        forall|k: int|
            0 <= k < index.spec_entries().len() ==> #[trigger] index.spec_entries()[k].line_number
                == (k + 1) * index.spec_interval(),
        1 <= line / index.spec_interval() <= index.spec_entries().len(),
    ensures
        index.entry_for(line) == Some(line / index.spec_interval() - 1),
        index.spec_locate(line).0 == index.spec_entries()[line / index.spec_interval() - 1].byte_offset,
        index.spec_locate(line).1 == line % index.spec_interval(),
        index.spec_entries()[line / index.spec_interval() - 1].line_number <= line,
{
    let iv = index.spec_interval() as int;
    let l = line as int;
    let c = l / iv;
    let k = c - 1;
    assert(index.spec_entries()[k].line_number == (k + 1) * iv);
    assert(l == c * iv + l % iv) by (nonlinear_arith)
        requires
            iv >= 1,
            c == l / iv,
    ;
}

} // verus!
