//! Line access over the bytes of a whole log file held in memory (a memory
//! map of it): a sparse index of line starts built in one pass, and lines
//! read back through that index.
use super::file_reader::lemma_usize_in_u64;
use super::sparse_index::{IndexEntry, SparseIndex};
use crate::mcp::tools::{
    line_start, newline_after, line_exists, newline_from, lemma_newline_after_range,
};
use vstd::prelude::*;

verus! {

/// Memory usage statistics
#[derive(Debug, Clone)]
pub struct MemoryStats {
    /// Bytes used by the sparse index
    pub sparse_index_bytes: usize,
    /// Bytes used by the tail buffer
    pub tail_buffer_bytes: usize,
    /// Number of lines in the tail buffer
    pub tail_buffer_lines: usize,
    /// Size of the memory-mapped region
    pub mmap_size: u64,
}

/// Number of lines of `data` that end with a line feed: all of them, or all
/// but the last when the text does not end with one.
pub open spec fn terminated_lines(data: Seq<u8>, total: nat) -> nat {
    if total > 0 && line_start(data, total) > data.len() {
        (total - 1) as nat
    } else {
        total
    }
}

/// Entry `j` of `index` holds line `(j + 1) * interval` and the byte offset
/// where that line starts in `data`, a line that starts after a line feed.
pub open spec fn entry_at(index: SparseIndex, data: Seq<u8>, j: int) -> bool {
    let k = (j + 1) * index.spec_interval();
    &&& index.spec_entries()[j] == IndexEntry {
        line_number: k as u32,
        byte_offset: line_start(data, k as nat) as u64,
    }
    &&& 0 <= line_start(data, k as nat) <= data.len()
}

/// `index` records, for every `interval`-th line that starts after a line
/// feed, the byte offset where that line starts.
pub open spec fn indexes(index: SparseIndex, data: Seq<u8>) -> bool {
    forall|j: int| 0 <= j < index.spec_entries().len() ==> #[trigger] entry_at(index, data, j)
}

/// The bytes `data[start..end]` without one carriage return before `end`.
pub open spec fn strip_cr_end(data: Seq<u8>, start: int, end: int) -> int {
    if end > start && data[end - 1] == 13 {
        end - 1
    } else {
        end
    }
}

/// Line `k` of `data` as the index reads it: the bytes from its start to the
/// next line feed (or the end), without a trailing carriage return, when
/// they are UTF-8; `None` when the data is empty, the line starts past its
/// end or is not UTF-8.
pub open spec fn line_bytes_text(data: Seq<u8>, k: nat) -> Option<Seq<char>> {
    let s = line_start(data, k);
    if data.len() == 0 || s > data.len() {
        None
    } else {
        let e = strip_cr_end(data, s, newline_after(data, s));
        let b = data.subrange(s, e);
        if vstd::utf8::valid_utf8(b) {
            Some(vstd::utf8::decode_utf8(b))
        } else {
            None
        }
    }
}

/// `std::str::from_utf8(bytes)`, copied into a `String`: the text when the
/// bytes are valid UTF-8, `None` otherwise.
#[verifier::external_body]
fn utf8_text(bytes: &[u8]) -> (r: Option<String>)
    ensures
        r is Some <==> vstd::utf8::valid_utf8(bytes@),
        r matches Some(s) ==> s@ == vstd::utf8::decode_utf8(bytes@),
{
    std::str::from_utf8(bytes).ok().map(|s| s.to_string())
}

proof fn lemma_div_step(c: int, iv: int)
    requires
        c >= 0,
        iv >= 1,
    ensures
        (c + 1) % iv == 0 ==> (c + 1) / iv == c / iv + 1 && c + 1 == ((c + 1) / iv) * iv,
        (c + 1) % iv != 0 ==> (c + 1) / iv == c / iv,
{
    assert((c + 1) % iv == 0 ==> (c + 1) / iv == c / iv + 1 && c + 1 == ((c + 1) / iv) * iv)
        by (nonlinear_arith)
        requires
            c >= 0,
            iv >= 1,
    ;
    assert((c + 1) % iv != 0 ==> (c + 1) / iv == c / iv) by (nonlinear_arith)
        requires
            c >= 0,
            iv >= 1,
    ;
}

/// Build the sparse index for the whole of `data` and count its lines.
///
/// Every line feed ends a line, and bytes after the last line feed form a
/// last line. Each `interval`-th line that starts after a line feed gets an
/// index entry holding its start offset.
pub fn index_lines(data: &[u8], index: &mut SparseIndex) -> (total: usize)
    ensures
        final(index).spec_interval() == old(index).spec_interval(),
        final(index).spec_total_lines() == total,
        forall|k: int| 0 <= k < total ==> line_exists(data@, k),
        !line_exists(data@, total as int),
        indexes(*final(index), data@),
        final(index).spec_entries().len() == terminated_lines(data@, total as nat)
            / (final(index).spec_interval() as nat),
{
    index.clear();
    let iv = index.interval();
    let ghost d = data@;
    let mut line_count: usize = 0;
    let mut pos: usize = 0;
    while pos < data.len()
        invariant
            iv == index.spec_interval(),
            iv == old(index).spec_interval(),
            iv >= 1,
            d == data@,
            pos <= d.len(),
            line_count <= pos,
            line_start(d, line_count as nat) == pos,
            forall|k: int| 0 <= k < line_count ==> line_exists(d, k),
            indexes(*index, d),
            index.spec_entries().len() == (line_count as int) / (iv as int),
        decreases d.len() - pos,
    {
        let nl = newline_from(data, pos);
        proof {
            lemma_newline_after_range(d, pos as int);
        }
        let ghost c = line_count as int;
        if nl < data.len() {
            proof {
                lemma_div_step(c, iv as int);
            }
            line_count = line_count + 1;
            let line_end = nl + 1;
            assert(line_start(d, line_count as nat) == line_end);
            if line_count % iv == 0 {
                let ghost before = *index;
                index.append(line_count, line_end as u64);
                assert forall|j: int| 0 <= j < index.spec_entries().len() implies #[trigger] entry_at(
                    *index,
                    d,
                    j,
                ) by {
                    if j < before.spec_entries().len() {
                        assert(entry_at(before, d, j));
                        assert(index.spec_entries()[j] == before.spec_entries()[j]);
                    } else {
                        assert((j + 1) * iv == line_count);
                    }
                }
                assert(indexes(*index, d));
            } else {
                assert(indexes(*index, d));
            }
            pos = line_end;
        } else {
            line_count = line_count + 1;
            assert(line_start(d, line_count as nat) == d.len() + 1);
            let ghost before = *index;
            index.set_total_lines(line_count);
            assert forall|j: int| 0 <= j < index.spec_entries().len() implies #[trigger] entry_at(
                *index,
                d,
                j,
            ) by {
                assert(entry_at(before, d, j));
            }
            return line_count;
        }
    }
    let ghost before = *index;
    index.set_total_lines(line_count);
    assert forall|j: int| 0 <= j < index.spec_entries().len() implies #[trigger] entry_at(
        *index,
        d,
        j,
    ) by {
        assert(entry_at(before, d, j));
    }
    line_count
}

/// Read line `line_num` of `data` through a sparse index built over the same
/// bytes.
///
/// Lines past the end read as `None`, except that a text ending in a line
/// feed reads as having one more, empty line (callers check the line count
/// first); a line that is not UTF-8 also reads as `None`.
pub fn line_at(data: &[u8], index: &SparseIndex, line_num: usize) -> (r: Option<String>)
    requires
        indexes(*index, data@),
        index.spec_entries().len() * index.spec_interval() <= u32::MAX,
    ensures
        match r {
            Some(s) => line_bytes_text(data@, line_num as nat) == Some(s@),
            None => line_bytes_text(data@, line_num as nat) is None,
        },
{
    let ghost d = data@;
    let _ = index.interval();
    let _ = data.len();
    proof {
        lemma_locate_exact(*index, d, line_num);
    }
    let (offset, skip) = index.locate(line_num);
    let ghost first: nat = (line_num - skip) as nat;
    if data.len() == 0 {
        return None;
    }
    let mut pos: usize = offset as usize;
    let mut i: usize = 0;
    while i < skip
        invariant
            d == data@,
            i <= skip,
            skip == line_num - first,
            pos <= d.len(),
            line_start(d, (first + i) as nat) == pos,
        decreases skip - i,
    {
        let nl = newline_from(data, pos);
        proof {
            lemma_newline_after_range(d, pos as int);
        }
        if nl >= data.len() {
            proof {
                if pos < d.len() {
                    assert(line_start(d, (first + i + 1) as nat) == d.len() + 1);
                    lemma_start_past_end(d, (first + i + 1) as nat, line_num as nat);
                } else {
                    assert(line_start(d, (first + i + 1) as nat) == d.len() + 1);
                    lemma_start_past_end(d, (first + i + 1) as nat, line_num as nat);
                }
            }
            return None;
        }
        pos = nl + 1;
        i = i + 1;
    }
    let start = pos;
    let nl = newline_from(data, start);
    proof {
        lemma_newline_after_range(d, start as int);
    }
    let end = if nl > start && data[nl - 1] == 13u8 {
        nl - 1
    } else {
        nl
    };
    let bytes = vstd::slice::slice_subrange(data, start, end);
    utf8_text(bytes)
}

/// `locate` on an index built over `data` starts from the start of an
/// indexed line at or before the requested one.
proof fn lemma_locate_exact(index: SparseIndex, data: Seq<u8>, line_num: usize)
    requires
        indexes(index, data),
        index.spec_entries().len() * index.spec_interval() <= u32::MAX,
        index.spec_interval() >= 1,
        data.len() <= usize::MAX,
    ensures
        index.entry_for(line_num) matches Some(k) ==> index.spec_entries()[k].line_number <= line_num,
        0 <= index.spec_locate(line_num).1 <= line_num,
        line_start(data, (line_num - index.spec_locate(line_num).1) as nat) == index.spec_locate(
            line_num,
        ).0,
        index.spec_locate(line_num).0 <= data.len(),
{
    let n = index.spec_entries().len() as int;
    let iv = index.spec_interval() as int;
    match index.entry_for(line_num) {
        Some(k) => {
            assert((k + 1) * iv <= n * iv) by (nonlinear_arith)
                requires
                    0 <= k < n,
                    iv >= 1,
            ;
            assert(entry_at(index, data, k));
            let e = index.spec_entries()[k];
            assert(e.line_number == (k + 1) * iv);
            let c = (line_num as int) / iv;
            assert(k + 1 <= c);
            assert((k + 1) * iv <= line_num) by (nonlinear_arith)
                requires
                    k + 1 <= c,
                    c == (line_num as int) / iv,
                    iv >= 1,
                    line_num >= 0,
            ;
            let kk = (k + 1) * iv;
            let ls = line_start(data, kk as nat);
            assert(ls <= data.len());
            assert(kk as u32 == kk);
            let lenu = data.len() as usize;
            assert(lenu == data.len());
            lemma_usize_in_u64(lenu);
            assert(0 <= ls <= u64::MAX);
            assert(ls as u64 == ls);
            assert(e.byte_offset == ls);
            assert(index.spec_locate(line_num).1 == line_num - kk);
            assert(line_num - index.spec_locate(line_num).1 == kk);
        },
        None => {},
    }
}

/// Once a line starts past the end of the data, so do all later ones.
proof fn lemma_start_past_end(data: Seq<u8>, k: nat, m: nat)
    requires
        k <= m,
        line_start(data, k) > data.len(),
    ensures
        line_start(data, m) > data.len(),
    decreases m - k,
{
    if k < m {
        lemma_start_past_end(data, k, (m - 1) as nat);
    }
}

} // verus!
