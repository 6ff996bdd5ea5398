use lazytail::index::IndexReader;
use lazytail::reader::combined_reader::{partition_point, CombinedReader, MergedLine, SourceEntry};
use lazytail::reader::stream_reader::StreamReader;
use lazytail::reader::LogReader;

fn make_source(name: &str, lines: Vec<&str>) -> SourceEntry<StreamReader> {
    let reader = StreamReader::from_text(&lines.join("\n"));
    let total_lines = reader.total_lines();
    SourceEntry {
        name: name.to_string(),
        reader,
        index_reader: None,
        source_path: None,
        total_lines,
        renderer_names: Vec::new(),
    }
}

#[test]
fn test_combined_reader_total_lines() {
    let sources = vec![
        make_source("a", vec!["a1", "a2", "a3"]),
        make_source("b", vec!["b1", "b2"]),
    ];
    let reader = CombinedReader::new(sources);
    assert_eq!(reader.total_lines(), 5);
}

#[test]
fn test_combined_reader_get_line() {
    let sources = vec![
        make_source("a", vec!["a1", "a2"]),
        make_source("b", vec!["b1"]),
    ];
    let mut reader = CombinedReader::new(sources);

    // Without timestamps, all get timestamp 0 — order is stable (a lines first, then b)
    assert_eq!(reader.get_line(0).unwrap(), Some("a1".to_string()));
    assert_eq!(reader.get_line(1).unwrap(), Some("a2".to_string()));
    assert_eq!(reader.get_line(2).unwrap(), Some("b1".to_string()));
    assert_eq!(reader.get_line(3).unwrap(), None);
}

#[test]
fn test_combined_reader_empty_sources() {
    let sources = vec![make_source("empty", vec![])];
    let reader = CombinedReader::new(sources);
    assert_eq!(reader.total_lines(), 0);
}

#[test]
fn test_combined_reader_reload() {
    let sources = vec![make_source("a", vec!["a1"])];
    let mut reader = CombinedReader::new(sources);
    assert_eq!(reader.total_lines(), 1);
    // reload should not error
    reader.reload().unwrap();
    assert_eq!(reader.total_lines(), 1);
}

#[test]
fn test_timestamp_carry_forward_for_unindexed_lines() {
    // Source "a" has timestamps for lines 0-1 but not line 2 (index lagging).
    // Source "b" has timestamps for all lines.
    // Line a:2 should carry forward a's last known timestamp (200), not get 0.
    let mut source_a = make_source("a", vec!["a1", "a2", "a3"]);
    source_a.index_reader = Some(IndexReader::with_timestamps(&[100, 200])); // only 2 of 3 indexed

    let mut source_b = make_source("b", vec!["b1", "b2"]);
    source_b.index_reader = Some(IndexReader::with_timestamps(&[150, 250]));

    let mut reader = CombinedReader::new(vec![source_a, source_b]);

    // Expected order by timestamp: a1(100), b1(150), a2(200), a3(200 carry), b2(250)
    assert_eq!(reader.total_lines(), 5);
    assert_eq!(reader.get_line(0).unwrap(), Some("a1".to_string())); // ts=100
    assert_eq!(reader.get_line(1).unwrap(), Some("b1".to_string())); // ts=150
    assert_eq!(reader.get_line(2).unwrap(), Some("a2".to_string())); // ts=200
    assert_eq!(reader.get_line(3).unwrap(), Some("a3".to_string())); // ts=200 (carried)
    assert_eq!(reader.get_line(4).unwrap(), Some("b2".to_string())); // ts=250
}

#[test]
fn test_no_index_lines_sort_to_beginning() {
    // Source without any index — all lines get timestamp 0, sort stably at start.
    let source_a = make_source("a", vec!["a1", "a2"]);
    let mut source_b = make_source("b", vec!["b1"]);
    source_b.index_reader = Some(IndexReader::with_timestamps(&[100]));

    let mut reader = CombinedReader::new(vec![source_a, source_b]);

    // a lines (ts=0) come first, then b1 (ts=100)
    assert_eq!(reader.get_line(0).unwrap(), Some("a1".to_string()));
    assert_eq!(reader.get_line(1).unwrap(), Some("a2".to_string()));
    assert_eq!(reader.get_line(2).unwrap(), Some("b1".to_string()));
}

#[test]
fn test_interleaved_timestamps_merge_correctly() {
    // Two sources with interleaved timestamps should merge in timestamp order.
    let mut source_a = make_source("a", vec!["a1", "a2", "a3"]);
    source_a.index_reader = Some(IndexReader::with_timestamps(&[10, 30, 50]));

    let mut source_b = make_source("b", vec!["b1", "b2", "b3"]);
    source_b.index_reader = Some(IndexReader::with_timestamps(&[20, 40, 60]));

    let mut reader = CombinedReader::new(vec![source_a, source_b]);

    assert_eq!(reader.total_lines(), 6);
    assert_eq!(reader.get_line(0).unwrap(), Some("a1".to_string())); // ts=10
    assert_eq!(reader.get_line(1).unwrap(), Some("b1".to_string())); // ts=20
    assert_eq!(reader.get_line(2).unwrap(), Some("a2".to_string())); // ts=30
    assert_eq!(reader.get_line(3).unwrap(), Some("b2".to_string())); // ts=40
    assert_eq!(reader.get_line(4).unwrap(), Some("a3".to_string())); // ts=50
    assert_eq!(reader.get_line(5).unwrap(), Some("b3".to_string())); // ts=60
}

#[test]
fn test_append_new_lines_binary_insert() {
    // Test the binary insert path: new lines interleave with existing.
    let mut merged = vec![
        MergedLine { source_id: 0, file_line: 0, timestamp: 10 },
        MergedLine { source_id: 0, file_line: 1, timestamp: 30 },
        MergedLine { source_id: 1, file_line: 0, timestamp: 50 },
    ];

    // Insert a line with timestamp 20 — goes between positions 0 and 1
    let new_line = MergedLine { source_id: 1, file_line: 1, timestamp: 20 };
    let pos = partition_point(&merged, &new_line);
    merged.insert(pos, new_line);

    assert_eq!(merged.len(), 4);
    assert_eq!(merged[0].timestamp, 10);
    assert_eq!(merged[1].timestamp, 20);
    assert_eq!(merged[2].timestamp, 30);
    assert_eq!(merged[3].timestamp, 50);
}
