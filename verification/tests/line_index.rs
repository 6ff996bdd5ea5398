use lazytail::reader::file_reader::LineScan;
use lazytail::reader::huge_file_reader::{index_lines, line_at};
use lazytail::reader::sparse_index::SparseIndex;

/// A reader's view of `data`: its line count and line `n` (none past the
/// count), through an index with the given interval.
struct BytesReader {
    data: Vec<u8>,
    index: SparseIndex,
    total: usize,
}

impl BytesReader {
    fn new(data: &[u8], interval: usize) -> Self {
        let mut index = SparseIndex::new(interval);
        let total = index_lines(data, &mut index);
        BytesReader { data: data.to_vec(), index, total }
    }

    fn get_line(&self, n: usize) -> Option<String> {
        if n >= self.total {
            return None;
        }
        line_at(&self.data, &self.index, n)
    }
}

fn numbered(prefix: &str, count: usize) -> Vec<u8> {
    let mut out = String::new();
    for i in 0..count {
        out.push_str(&format!("{}{}\n", prefix, i));
    }
    out.into_bytes()
}

#[test]
fn index_basic_lines() {
    let r = BytesReader::new(b"Line 1\nLine 2\nLine 3\n", 10000);
    assert_eq!(r.total, 3);
    assert_eq!(r.get_line(0).unwrap(), "Line 1");
    assert_eq!(r.get_line(1).unwrap(), "Line 2");
    assert_eq!(r.get_line(2).unwrap(), "Line 3");
    assert!(r.get_line(3).is_none());
}

#[test]
fn index_empty_data() {
    let r = BytesReader::new(b"", 10000);
    assert_eq!(r.total, 0);
    assert!(r.get_line(0).is_none());
    assert!(line_at(b"", &r.index, 0).is_none());
}

#[test]
fn index_empty_lines() {
    let r = BytesReader::new(b"First line\n\nThird line\n\n", 10000);
    assert_eq!(r.total, 4);
    assert_eq!(r.get_line(0).unwrap(), "First line");
    assert_eq!(r.get_line(1).unwrap(), "");
    assert_eq!(r.get_line(2).unwrap(), "Third line");
    assert_eq!(r.get_line(3).unwrap(), "");
}

#[test]
fn index_unicode_lines() {
    let text = "English: Hello World\n日本語: こんにちは世界\nEmoji: 🎉🚀✨\n";
    let r = BytesReader::new(text.as_bytes(), 10000);
    assert_eq!(r.total, 3);
    assert_eq!(r.get_line(1).unwrap(), "日本語: こんにちは世界");
    assert_eq!(r.get_line(2).unwrap(), "Emoji: 🎉🚀✨");
}

#[test]
fn index_mixed_line_endings() {
    let r = BytesReader::new(b"Unix line\nWindows line\r\nAnother Unix\n", 10000);
    assert_eq!(r.total, 3);
    assert_eq!(r.get_line(0).unwrap(), "Unix line");
    assert_eq!(r.get_line(1).unwrap(), "Windows line");
    assert_eq!(r.get_line(2).unwrap(), "Another Unix");
}

#[test]
fn index_no_trailing_newline() {
    let r = BytesReader::new(b"Line 1\nLine 2\nLine 3 no newline", 10000);
    assert_eq!(r.total, 3);
    assert_eq!(r.get_line(2).unwrap(), "Line 3 no newline");
}

#[test]
fn index_small_interval_entries() {
    let data = numbered("Line ", 25);
    let r = BytesReader::new(&data, 10);
    assert_eq!(r.total, 25);
    assert_eq!(r.index.entry_count(), 2);
    assert_eq!(r.index.total_lines(), 25);
    // entry for line 10 holds the start of "Line 10"
    let (offset, skip) = r.index.locate(15);
    assert_eq!(skip, 5);
    assert_eq!(&data[offset as usize..offset as usize + 7], b"Line 10");
    for n in [0usize, 9, 10, 15, 24] {
        assert_eq!(r.get_line(n).unwrap(), format!("Line {}", n));
    }
}

#[test]
fn index_random_access() {
    let data = numbered("Content at line ", 50);
    let r = BytesReader::new(&data, 10);
    for n in [45usize, 5, 25, 10, 0, 49] {
        assert_eq!(r.get_line(n).unwrap(), format!("Content at line {}", n));
    }
}

#[test]
fn index_ending_newline_reads_one_empty_line_past_end() {
    let r = BytesReader::new(b"Only line\n", 10000);
    assert_eq!(r.total, 1);
    assert!(r.get_line(1).is_none());
    // without the line-count check, the index reads an empty line there
    assert_eq!(line_at(b"Only line\n", &r.index, 1).unwrap(), "");
    assert!(line_at(b"Only line\n", &r.index, 100).is_none());
}

#[test]
fn index_invalid_utf8_line_reads_none() {
    let r = BytesReader::new(b"ok\n\xff\xfe\nok again\n", 10000);
    assert_eq!(r.total, 3);
    assert!(r.get_line(1).is_none());
    assert_eq!(r.get_line(2).unwrap(), "ok again");
}

#[test]
fn index_very_long_line() {
    let mut data = "x".repeat(10000).into_bytes();
    data.extend_from_slice(b"\nShort line\n");
    let r = BytesReader::new(&data, 10000);
    assert_eq!(r.total, 2);
    assert_eq!(r.get_line(0).unwrap().len(), 10000);
    assert_eq!(r.get_line(1).unwrap(), "Short line");
}

/// Scan `data` in chunks of `chunk` bytes, as the file reader does.
fn scan(data: &[u8], chunk: usize, interval: usize) -> (SparseIndex, usize, u64) {
    let mut index = SparseIndex::new(interval);
    let mut s = LineScan::new(0, 0);
    for piece in data.chunks(chunk) {
        s.feed(piece, &mut index);
    }
    let total = s.finish(&mut index);
    (index, total, s.scanned_up_to())
}

#[test]
fn scan_counts_lines() {
    let (_, total, end) = scan(b"a\nb\nc\n", 65536, 10000);
    assert_eq!(total, 3);
    assert_eq!(end, 6);
    let (_, total, _) = scan(b"a\nb\nlast", 65536, 10000);
    assert_eq!(total, 3);
    let (_, total, _) = scan(b"", 65536, 10000);
    assert_eq!(total, 0);
}

#[test]
fn scan_does_not_depend_on_chunk_size() {
    let data = numbered("Line ", 137);
    let (whole, total, end) = scan(&data, 65536, 10);
    assert_eq!(total, 137);
    assert_eq!(end, data.len() as u64);
    assert_eq!(whole.entry_count(), 13);
    for chunk in [1usize, 3, 7, 64] {
        let (idx, t, e) = scan(&data, chunk, 10);
        assert_eq!(t, total);
        assert_eq!(e, end);
        assert_eq!(idx.entry_count(), whole.entry_count());
        for line in [10usize, 55, 99, 136] {
            assert_eq!(idx.locate(line), whole.locate(line));
        }
    }
}

#[test]
fn scan_entries_hold_line_starts() {
    let data = numbered("Line ", 25);
    let (idx, _, _) = scan(&data, 4, 10);
    let (offset, skip) = idx.locate(20);
    assert_eq!(skip, 0);
    assert_eq!(&data[offset as usize..offset as usize + 7], b"Line 20");
    // the one-pass index over the whole data agrees
    let mut whole = SparseIndex::new(10);
    index_lines(&data, &mut whole);
    assert_eq!(whole.locate(20), idx.locate(20));
}

#[test]
fn scan_tail_after_base() {
    // a scan resumed after 3 indexed lines at byte 6
    let mut index = SparseIndex::new(2);
    let mut s = LineScan::new(3, 6);
    s.feed(b"d\ne\nf", &mut index);
    let total = s.finish(&mut index);
    assert_eq!(total, 6);
    assert_eq!(s.scanned_up_to(), 11);
    // line 4 starts after "d\n" at byte 8
    assert_eq!(index.entry_count(), 1);
    assert_eq!(index.last_indexed_offset(), 8);
    assert_eq!(index.last_indexed_line(), 4);
}
