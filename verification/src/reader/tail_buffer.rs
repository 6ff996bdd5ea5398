use std::collections::VecDeque;
use vstd::prelude::*;

verus! {

/// Default tail buffer capacity (number of lines to keep in RAM)
pub const DEFAULT_CAPACITY: usize = 10_000;

/// Number of UTF-8 bytes of a text.
pub open spec fn byte_len(s: Seq<char>) -> nat {
    vstd::utf8::encode_utf8(s).len()
}

/// A circular buffer that keeps the most recent N lines in memory
///
/// Used for follow mode to provide instant access to recent lines
/// without disk I/O. When the buffer is full, old lines are evicted
/// and can be handed off for indexing.
#[derive(Debug)]
pub struct TailBuffer {
    /// Lines stored in the buffer (newest at back)
    lines: VecDeque<String>,
    /// Line number of the first line in the buffer (0-indexed)
    /// This tracks the "global" line number in the file
    start_line: usize,
    /// Maximum number of lines to keep
    capacity: usize,
}

/// Information about an evicted line, for index updates
#[derive(Debug, Clone)]
pub struct EvictedLine {
    /// The global line number of the evicted line
    pub line_number: usize,
    /// The content of the evicted line
    pub content: String,
    /// Byte length of the line (including newline)
    pub byte_len: usize,
}

impl TailBuffer {
    #[verifier::type_invariant]
    spec fn inv(self) -> bool {
        &&& self.capacity >= 1
        &&& self.lines@.len() <= self.capacity
        &&& self.start_line + self.lines@.len() <= usize::MAX
        &&& forall|i: int| 0 <= i < self.lines@.len() ==> byte_len(#[trigger] self.lines@[i]@) < usize::MAX
    }

    /// The lines held, oldest first.
    pub closed spec fn contents(&self) -> Seq<String> {
        self.lines@
    }

    /// Global line number of the oldest line held.
    pub closed spec fn first_line(&self) -> usize {
        self.start_line
    }

    /// Maximum number of lines held.
    pub closed spec fn max_lines(&self) -> usize {
        self.capacity
    }

    /// Text of global line `n`, if the buffer holds it.
    pub open spec fn line_at(&self, n: int) -> Option<Seq<char>> {
        if self.first_line() <= n < self.first_line() + self.contents().len() {
            Some(self.contents()[n - self.first_line()]@)
        } else {
            None
        }
    }

    /// Create a new tail buffer with the given capacity
    pub fn new(capacity: usize) -> (b: Self)
        ensures
            b.contents().len() == 0,
            b.first_line() == 0,
            b.max_lines() == if capacity >= 1 { capacity } else { 1 },
    {
        TailBuffer {
            lines: VecDeque::with_capacity(if capacity <= 1000 { capacity } else { 1000 }),
            start_line: 0,
            capacity: if capacity >= 1 { capacity } else { 1 },
        }
    }

    /// Create a tail buffer with default capacity (10,000 lines)
    pub fn default_capacity() -> (b: Self)
        ensures
            b.contents().len() == 0,
            b.first_line() == 0,
            b.max_lines() == DEFAULT_CAPACITY,
    {
        Self::new(DEFAULT_CAPACITY)
    }

    /// Push a new line to the buffer
    ///
    /// Returns `Some(EvictedLine)` if a line was evicted to make room,
    /// or `None` if no eviction was needed.
    pub fn push(&mut self, line: String) -> (r: Option<EvictedLine>)
        requires
            old(self).first_line() + old(self).contents().len() < usize::MAX,
            byte_len(line@) < usize::MAX,
        ensures
            final(self).max_lines() == old(self).max_lines(),
            old(self).contents().len() < old(self).max_lines() ==> {
                &&& r is None
                &&& final(self).contents() == old(self).contents().push(line)
                &&& final(self).first_line() == old(self).first_line()
            },
            old(self).contents().len() == old(self).max_lines() ==> {
                &&& final(self).contents() == old(self).contents().drop_first().push(line)
                &&& final(self).first_line() == old(self).first_line() + 1
                &&& r matches Some(e) && e.line_number == old(self).first_line()
                    && e.content == old(self).contents()[0]
                    && e.byte_len == byte_len(old(self).contents()[0]@) + 1
            },
    {
        proof {
            use_type_invariant(&*self);
        }
        let mut lines = VecDeque::new();
        std::mem::swap(&mut lines, &mut self.lines);
        if lines.len() >= self.capacity {
            let evicted_content = lines.pop_front().unwrap();
            let byte_len = evicted_content.as_str().len() + 1;
            let evicted_line_num = self.start_line;
            lines.push_back(line);
            self.start_line = self.start_line + 1;
            self.lines = lines;
            Some(EvictedLine { line_number: evicted_line_num, content: evicted_content, byte_len })
        } else {
            lines.push_back(line);
            self.lines = lines;
            None
        }
    }

    /// Get a line by its global line number
    ///
    /// Returns `None` if the line is not in the buffer (either evicted or not yet added)
    pub fn get(&self, line_num: usize) -> (r: Option<&str>)
        ensures
            r is Some <==> self.line_at(line_num as int) is Some,
            r matches Some(s) ==> Some(s@) == self.line_at(line_num as int),
    {
        if line_num < self.start_line {
            return None;
        }
        let idx = line_num - self.start_line;
        if idx < self.lines.len() {
            Some(self.lines[idx].as_str())
        } else {
            None
        }
    }

    /// Check if a line number is in the buffer
    pub fn contains(&self, line_num: usize) -> (r: bool)
        ensures
            r == (self.line_at(line_num as int) is Some),
    {
        proof {
            use_type_invariant(self);
        }
        line_num >= self.start_line && line_num < self.start_line + self.lines.len()
    }

    /// Get the range of line numbers in the buffer (inclusive start, exclusive end)
    pub fn line_range(&self) -> (r: (usize, usize))
        ensures
            r.0 == self.first_line(),
            r.1 == self.first_line() + self.contents().len(),
    {
        proof {
            use_type_invariant(self);
        }
        (self.start_line, self.start_line + self.lines.len())
    }

    /// Get the number of lines currently in the buffer
    pub fn len(&self) -> (r: usize)
        ensures
            r == self.contents().len(),
            r <= self.max_lines(),
    {
        proof {
            use_type_invariant(self);
        }
        self.lines.len()
    }

    /// Check if the buffer is empty
    pub fn is_empty(&self) -> (r: bool)
        ensures
            r == (self.contents().len() == 0),
    {
        self.lines.len() == 0
    }

    /// Get the line number of the first line in the buffer
    pub fn start_line(&self) -> (r: usize)
        ensures
            r == self.first_line(),
    {
        self.start_line
    }

    /// Get the line number of the last line in the buffer (if any)
    pub fn end_line(&self) -> (r: Option<usize>)
        ensures
            self.contents().len() == 0 ==> r is None,
            self.contents().len() > 0 ==> r == Some(
                (self.first_line() + self.contents().len() - 1) as usize,
            ),
    {
        proof {
            use_type_invariant(self);
        }
        if self.lines.len() == 0 {
            None
        } else {
            Some(self.start_line + self.lines.len() - 1)
        }
    }

    /// Clear the buffer and reset to a new starting line
    pub fn clear(&mut self)
        ensures
            final(self).contents().len() == 0,
            final(self).first_line() == 0,
            final(self).max_lines() == old(self).max_lines(),
    {
        proof {
            use_type_invariant(&*self);
        }
        self.lines = VecDeque::new();
        self.start_line = 0;
    }

    /// Clear and set a new starting line number (for appending after existing content)
    pub fn reset_from(&mut self, start_line: usize)
        ensures
            final(self).contents().len() == 0,
            final(self).first_line() == start_line,
            final(self).max_lines() == old(self).max_lines(),
    {
        proof {
            use_type_invariant(&*self);
        }
        self.lines = VecDeque::new();
        self.start_line = start_line;
    }

    /// Get the buffer's capacity
    pub fn capacity(&self) -> (r: usize)
        ensures
            r == self.max_lines(),
    {
        self.capacity
    }

    /// All lines with their global line numbers, oldest first
    pub fn iter(&self) -> (r: Vec<(usize, &str)>)
        ensures
            r@.len() == self.contents().len(),
            forall|i: int|
                0 <= i < r@.len() ==> #[trigger] r@[i].0 == self.first_line() + i
                    && r@[i].1@ == self.contents()[i]@,
    {
        proof {
            use_type_invariant(self);
        }
        let start = self.start_line;
        let mut out: Vec<(usize, &str)> = Vec::new();
        let n = self.lines.len();
        let mut i: usize = 0;
        while i < n
            invariant
                n == self.lines@.len(),
                start == self.start_line,
                start + n <= usize::MAX,
                0 <= i <= n,
                out@.len() == i,
                forall|j: int|
                    0 <= j < i ==> #[trigger] out@[j].0 == start + j && out@[j].1@
                        == self.lines@[j]@,
            decreases n - i,
        {
            out.push((start + i, self.lines[i].as_str()));
            i = i + 1;
        }
        out
    }

    /// Get approximate memory usage in bytes: the struct, the allocations of
    /// the lines and the slots of the queue. It is at least the struct size
    /// plus one byte per character held and one slot per line (or
    /// `usize::MAX`, where the sum does not fit).
    pub fn memory_usage(&self) -> (r: usize)
        ensures
            r >= vstd::layout::size_of::<Self>(),
            r == usize::MAX || r >= vstd::layout::size_of::<Self>() + chars_held(self.contents())
                + self.contents().len() * vstd::layout::size_of::<String>(),
    {
        let struct_size = std::mem::size_of::<Self>();
        let mut content_size: usize = 0;
        let n = self.lines.len();
        let mut i: usize = 0;
        while i < n
            invariant
                n == self.lines@.len(),
                0 <= i <= n,
                content_size == usize::MAX || content_size >= chars_held(self.lines@.take(i as int)),
            decreases n - i,
        {
            let c = string_capacity(&self.lines[i]);
            proof {
                assert(self.lines@.take(i + 1).drop_last() == self.lines@.take(i as int));
            }
            content_size = content_size.saturating_add(c);
            i = i + 1;
        }
        proof {
            assert(self.lines@.take(n as int) == self.lines@);
        }
        let slots = deque_capacity(&self.lines);
        let slot_size = std::mem::size_of::<String>();
        let vec_overhead: usize = if slot_size != 0 && slots > usize::MAX / slot_size {
            usize::MAX
        } else {
            proof {
                if slot_size != 0 {
                    assert(slots * slot_size <= usize::MAX) by (nonlinear_arith)
                        requires
                            slots <= usize::MAX / slot_size,
                            slot_size > 0,
                    ;
                }
            }
            slots * slot_size
        };
        proof {
            if slot_size != 0 && slots <= usize::MAX / slot_size {
                assert(slots * slot_size >= n * slot_size) by (nonlinear_arith)
                    requires
                        slots >= n,
                ;
            }
            if slot_size == 0 {
                assert(n * slot_size == 0);
            }
        }
        struct_size.saturating_add(content_size).saturating_add(vec_overhead)
    }
}

/// Characters held by the lines, all together.
pub open spec fn chars_held(lines: Seq<String>) -> int
    decreases lines.len(),
{
    if lines.len() == 0 {
        0
    } else {
        chars_held(lines.drop_last()) + lines.last()@.len()
    }
}

/// `String::capacity`: the allocation size in bytes. The allocator decides
/// it; it is at least the string's length in bytes, and so at least its
/// number of characters.
#[verifier::external_body]
fn string_capacity(s: &String) -> (r: usize)
    ensures
        r >= s@.len(),
{
    s.capacity()
}

/// `VecDeque::capacity`: the number of slots allocated. The allocator decides
/// it; it is at least the number of elements.
#[verifier::external_body]
fn deque_capacity(d: &VecDeque<String>) -> (r: usize)
    ensures
        r >= d@.len(),
{
    d.capacity()
}

/// Reading back the line just pushed yields it; every line that was held
/// and not evicted keeps its global line number and text.
pub proof fn lemma_push_then_get(before: TailBuffer, after: TailBuffer, line: String, n: int)
    requires
        before.max_lines() >= 1,
        before.contents().len() <= before.max_lines(),
        after.max_lines() == before.max_lines(),
        before.contents().len() < before.max_lines() ==> {
            &&& after.contents() == before.contents().push(line)
            &&& after.first_line() == before.first_line()
        },
        before.contents().len() == before.max_lines() ==> {
            &&& after.contents() == before.contents().drop_first().push(line)
            &&& after.first_line() == before.first_line() + 1
        },
    ensures
        after.line_at(before.first_line() + before.contents().len()) == Some(line@),
        before.contents().len() == before.max_lines() ==> after.line_at(before.first_line() as int) is None,
        before.line_at(n) is Some && (before.contents().len() < before.max_lines() || n != before.first_line())
            ==> after.line_at(n) == before.line_at(n),
        after.contents().len() <= after.max_lines(),
{
}

} // verus!
