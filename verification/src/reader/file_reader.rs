//! The line scan behind the file reader's sparse index: the file is read in
//! chunks, and the scan counts line feeds and records the start of every
//! `interval`-th line as the chunks go by.
use super::sparse_index::{IndexEntry, SparseIndex};
use crate::mcp::tools::{lemma_newline_after_range, newline_from};
use vstd::prelude::*;

verus! {

/// Default sparse index interval (index every 10,000 lines)
pub const DEFAULT_INDEX_INTERVAL: usize = 10000;

/// Number of line feeds in `b`.
pub open spec fn newline_count(b: Seq<u8>) -> nat
    decreases b.len(),
{
    if b.len() == 0 {
        0
    } else {
        newline_count(b.drop_last()) + if b.last() == 10 {
            1nat
        } else {
            0nat
        }
    }
}

/// The index entries a scan of `b` appends, when `base` lines come before
/// `b` and `b` starts at byte `start` of the file: one for each line feed
/// that ends a line whose number is a multiple of `interval`, holding the
/// offset just after that line feed.
pub open spec fn scan_entries(b: Seq<u8>, base: int, start: int, interval: int) -> Seq<IndexEntry>
    decreases b.len(),
{
    if b.len() == 0 {
        seq![]
    } else {
        let prev = scan_entries(b.drop_last(), base, start, interval);
        let n = base + newline_count(b);
        if b.last() == 10 && n % interval == 0 {
            prev.push(IndexEntry { line_number: n as u32, byte_offset: (start + b.len()) as u64 })
        } else {
            prev
        }
    }
}

/// Every `usize` fits in a `u64`.
pub proof fn lemma_usize_in_u64(x: usize)
    ensures
        x <= u64::MAX,
{
    assert(x as u64 as usize == x) by (bit_vector);
}

/// A prefix holds no more line feeds than the whole.
proof fn lemma_newline_count_prefix(b: Seq<u8>, p: int)
    requires
        0 <= p <= b.len(),
    ensures
        newline_count(b.subrange(0, p)) <= newline_count(b),
    decreases b.len() - p,
{
    if p < b.len() {
        lemma_newline_count_prefix(b, p + 1);
        assert(b.subrange(0, p + 1).drop_last() == b.subrange(0, p));
    } else {
        assert(b.subrange(0, p) == b);
    }
}

/// Bytes without a line feed change neither the count nor the entries.
proof fn lemma_no_newline_run(b: Seq<u8>, pos: int, q: int, base: int, start: int, interval: int)
    requires
        0 <= pos <= q <= b.len(),
        forall|j: int| pos <= j < q ==> b[j] != 10,
    ensures
        newline_count(b.subrange(0, q)) == newline_count(b.subrange(0, pos)),
        scan_entries(b.subrange(0, q), base, start, interval) == scan_entries(
            b.subrange(0, pos),
            base,
            start,
            interval,
        ),
    decreases q - pos,
{
    if q > pos {
        lemma_no_newline_run(b, pos, q - 1, base, start, interval);
        assert(b.subrange(0, q).drop_last() == b.subrange(0, q - 1));
    }
}

/// Scanning two pieces one after the other is scanning them joined: the
/// index does not depend on how the file was cut into chunks.
pub proof fn lemma_scan_concat(a: Seq<u8>, b: Seq<u8>, base: int, start: int, interval: int)
    ensures
        newline_count(a + b) == newline_count(a) + newline_count(b),
        scan_entries(a + b, base, start, interval) == scan_entries(a, base, start, interval)
            + scan_entries(b, base + newline_count(a), start + a.len(), interval),
    decreases b.len(),
{
    if b.len() == 0 {
        assert(a + b == a);
    } else {
        lemma_scan_concat(a, b.drop_last(), base, start, interval);
        assert((a + b).drop_last() == a + b.drop_last());
    }
}

/// State of a scan over the chunks of a file.
pub struct LineScan {
    /// Lines ended by a line feed so far, after the lines before the start
    line_count: usize,
    /// Offset just past the last byte scanned
    file_offset: u64,
    /// Whether the last byte scanned was a line feed (true before any)
    last_byte_was_newline: bool,
    /// Offset where the scan started
    start_offset: u64,
}

impl LineScan {
    pub closed spec fn lines(&self) -> nat {
        self.line_count as nat
    }

    pub closed spec fn offset(&self) -> nat {
        self.file_offset as nat
    }

    pub closed spec fn ends_with_newline(&self) -> bool {
        self.last_byte_was_newline
    }

    pub closed spec fn start(&self) -> nat {
        self.start_offset as nat
    }

    /// A scan starting at byte `start_offset`, after `base_lines` lines.
    pub fn new(base_lines: usize, start_offset: u64) -> (r: Self)
        ensures
            r.lines() == base_lines,
            r.offset() == start_offset,
            r.start() == start_offset,
            r.ends_with_newline(),
    {
        LineScan {
            line_count: base_lines,
            file_offset: start_offset,
            last_byte_was_newline: true,
            start_offset,
        }
    }

    /// Lines ended by a line feed so far (with the lines before the start).
    pub fn line_count(&self) -> (r: usize)
        ensures
            r == self.lines(),
    {
        self.line_count
    }

    /// Offset just past the last byte scanned.
    pub fn scanned_up_to(&self) -> (r: u64)
        ensures
            r == self.offset(),
    {
        self.file_offset
    }

    /// Scan the next chunk of the file, appending to `index` an entry for
    /// every `interval`-th line it ends.
    pub fn feed(&mut self, chunk: &[u8], index: &mut SparseIndex)
        requires
            old(self).lines() + newline_count(chunk@) <= usize::MAX,
            old(self).offset() + chunk@.len() <= u64::MAX,
        ensures
            final(self).lines() == old(self).lines() + newline_count(chunk@),
            final(self).offset() == old(self).offset() + chunk@.len(),
            final(self).start() == old(self).start(),
            final(self).ends_with_newline() == if chunk@.len() > 0 {
                chunk@.last() == 10
            } else {
                old(self).ends_with_newline()
            },
            final(index).spec_entries() == old(index).spec_entries() + scan_entries(
                chunk@,
                old(self).lines() as int,
                old(self).offset() as int,
                old(index).spec_interval() as int,
            ),
            final(index).spec_interval() == old(index).spec_interval(),
            final(index).spec_total_lines() == old(index).spec_total_lines(),
    {
        let iv = index.interval();
        let ghost c = chunk@;
        let ghost base = self.line_count as int;
        let ghost off = self.file_offset as int;
        let ghost entries0 = index.spec_entries();
        let len = chunk.len();
        proof {
            lemma_usize_in_u64(len);
            assert(c.subrange(0, 0) == Seq::<u8>::empty());
        }
        let mut pos: usize = 0;
        let mut done = false;
        while !done && pos < len
            invariant
                done ==> forall|j: int| pos <= j < len ==> c[j] != 10,
                c == chunk@,
                len == c.len(),
                pos <= len,
                iv == index.spec_interval(),
                iv == old(index).spec_interval(),
                iv >= 1,
                index.spec_total_lines() == old(index).spec_total_lines(),
                base == old(self).lines(),
                off == old(self).offset(),
                off + len <= u64::MAX,
                base + newline_count(c) <= usize::MAX,
                self.file_offset == off,
                self.start_offset == old(self).start(),
                self.last_byte_was_newline == old(self).ends_with_newline(),
                self.line_count == base + newline_count(c.subrange(0, pos as int)),
                index.spec_entries() == entries0 + scan_entries(c.subrange(0, pos as int), base, off, iv as int),
                entries0 == old(index).spec_entries(),
            decreases len - pos + if done {
                0int
            } else {
                1int
            },
        {
            let nl = newline_from(chunk, pos);
            proof {
                lemma_newline_after_range(c, pos as int);
                lemma_no_newline_run(c, pos as int, nl as int, base, off, iv as int);
            }
            if nl >= len {
                done = true;
            } else {
            let ghost q = (nl + 1) as int;
            proof {
                assert(c.subrange(0, q).drop_last() == c.subrange(0, nl as int));
                assert(c.subrange(0, q).last() == 10);
                lemma_newline_count_prefix(c, q);
            }
            self.line_count = self.line_count + 1;
            if self.line_count % iv == 0 {
                proof {
                    lemma_usize_in_u64(nl);
                }
                let end = self.file_offset + nl as u64 + 1;
                index.append(self.line_count, end);
            }
            pos = nl + 1;
            }
        }
        proof {
            lemma_no_newline_run(c, pos as int, len as int, base, off, iv as int);
            assert(c.subrange(0, len as int) == c);
        }
        if len > 0 {
            self.last_byte_was_newline = chunk[len - 1] == 10u8;
        }
        self.file_offset = self.file_offset + len as u64;
    }

    /// End the scan: a last line without a line feed counts too. Records the
    /// total in `index` and returns it.
    pub fn finish(&self, index: &mut SparseIndex) -> (total: usize)
        requires
            self.lines() + 1 <= usize::MAX,
        ensures
            total == self.lines() + if self.offset() > self.start() && !self.ends_with_newline() {
                1int
            } else {
                0int
            },
            final(index).spec_total_lines() == total,
            final(index).spec_entries() == old(index).spec_entries(),
            final(index).spec_interval() == old(index).spec_interval(),
    {
        let total = if self.file_offset > self.start_offset && !self.last_byte_was_newline {
            self.line_count + 1
        } else {
            self.line_count
        };
        index.set_total_lines(total);
        total
    }
}

} // verus!
