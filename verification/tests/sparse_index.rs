use lazytail::reader::sparse_index::{IndexEntry, SparseIndex};


#[test]
fn test_new_sparse_index() {
    let index = SparseIndex::new(1000);
    assert_eq!(index.interval(), 1000);
    assert_eq!(index.total_lines(), 0);
    assert_eq!(index.entry_count(), 0);
}

#[test]
fn test_minimum_interval() {
    let index = SparseIndex::new(0);
    assert_eq!(index.interval(), 1); // Should be clamped to 1
}

#[test]
fn test_locate_empty_index() {
    let index = SparseIndex::new(100);
    let (offset, skip) = index.locate(50);
    assert_eq!(offset, 0);
    assert_eq!(skip, 50);
}

#[test]
fn test_locate_line_zero() {
    let mut index = SparseIndex::new(100);
    index.append(100, 1000);
    let (offset, skip) = index.locate(0);
    assert_eq!(offset, 0);
    assert_eq!(skip, 0);
}

#[test]
fn test_locate_before_first_entry() {
    let mut index = SparseIndex::new(100);
    index.append(100, 1000);

    // Line 50 is before first entry (line 100)
    let (offset, skip) = index.locate(50);
    assert_eq!(offset, 0);
    assert_eq!(skip, 50);
}

#[test]
fn test_locate_at_entry() {
    let mut index = SparseIndex::new(100);
    index.append(100, 1000);
    index.append(200, 2000);

    // Exactly at entry
    let (offset, skip) = index.locate(100);
    assert_eq!(offset, 1000);
    assert_eq!(skip, 0);
}

#[test]
fn test_locate_between_entries() {
    let mut index = SparseIndex::new(100);
    index.append(100, 1000);
    index.append(200, 2000);

    // Line 150 is between entries at 100 and 200
    let (offset, skip) = index.locate(150);
    assert_eq!(offset, 1000);
    assert_eq!(skip, 50);
}

#[test]
fn test_locate_after_last_entry() {
    let mut index = SparseIndex::new(100);
    index.append(100, 1000);
    index.append(200, 2000);

    // Line 250 is after last entry
    let (offset, skip) = index.locate(250);
    assert_eq!(offset, 2000);
    assert_eq!(skip, 50);
}

#[test]
fn test_append_updates_last_offset() {
    let mut index = SparseIndex::new(100);
    assert_eq!(index.last_indexed_offset(), 0);

    index.append(100, 1000);
    assert_eq!(index.last_indexed_offset(), 1000);
    assert_eq!(index.last_indexed_line(), 100);

    index.append(200, 2000);
    assert_eq!(index.last_indexed_offset(), 2000);
    assert_eq!(index.last_indexed_line(), 200);
}

#[test]
fn sparse_index_test_clear() {
    let mut index = SparseIndex::new(100);
    index.append(100, 1000);
    index.set_total_lines(150);

    index.clear();

    assert_eq!(index.entry_count(), 0);
    assert_eq!(index.total_lines(), 0);
    assert_eq!(index.last_indexed_offset(), 0);
}

#[test]
fn sparse_index_test_memory_usage() {
    let mut index = SparseIndex::new(100);
    let base_usage = index.memory_usage();

    // Add some entries
    for i in 1..=10 {
        index.append(i * 100, i as u64 * 1000);
    }

    let with_entries = index.memory_usage();
    // Should have grown by approximately 10 * size_of::<IndexEntry>()
    assert!(with_entries > base_usage);
    assert_eq!(
        with_entries - base_usage,
        10 * std::mem::size_of::<IndexEntry>()
    );
}

#[test]
fn test_large_line_numbers() {
    let mut index = SparseIndex::new(10_000);

    // Simulate 100M lines with interval 10K = 10K entries
    for i in 1..=100 {
        let line = i * 10_000;
        let offset = i as u64 * 100_000; // ~100 bytes per line avg
        index.append(line, offset);
    }

    index.set_total_lines(1_000_000);

    // Locate line 555_555
    let (offset, skip) = index.locate(555_555);
    // Should use entry at line 550_000 (entry index 54)
    assert_eq!(offset, 55 * 100_000);
    assert_eq!(skip, 555_555 - 550_000);
}

#[test]
fn test_entry_count() {
    let mut index = SparseIndex::new(100);
    assert_eq!(index.entry_count(), 0);

    index.append(100, 1000);
    assert_eq!(index.entry_count(), 1);

    index.append(200, 2000);
    assert_eq!(index.entry_count(), 2);
}
