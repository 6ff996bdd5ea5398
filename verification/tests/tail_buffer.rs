use lazytail::reader::tail_buffer::TailBuffer;


#[test]
fn test_new_buffer() {
    let buffer = TailBuffer::new(100);
    assert_eq!(buffer.capacity(), 100);
    assert_eq!(buffer.len(), 0);
    assert!(buffer.is_empty());
}

#[test]
fn test_default_capacity() {
    let buffer = TailBuffer::default_capacity();
    assert_eq!(buffer.capacity(), 10_000);
}

#[test]
fn test_minimum_capacity() {
    let buffer = TailBuffer::new(0);
    assert_eq!(buffer.capacity(), 1);
}

#[test]
fn test_push_without_eviction() {
    let mut buffer = TailBuffer::new(5);

    assert!(buffer.push("line 0".to_string()).is_none());
    assert!(buffer.push("line 1".to_string()).is_none());
    assert!(buffer.push("line 2".to_string()).is_none());

    assert_eq!(buffer.len(), 3);
    assert_eq!(buffer.get(0), Some("line 0"));
    assert_eq!(buffer.get(1), Some("line 1"));
    assert_eq!(buffer.get(2), Some("line 2"));
}

#[test]
fn test_push_with_eviction() {
    let mut buffer = TailBuffer::new(3);

    buffer.push("line 0".to_string());
    buffer.push("line 1".to_string());
    buffer.push("line 2".to_string());
    assert_eq!(buffer.len(), 3);

    // This push should evict line 0
    let evicted = buffer.push("line 3".to_string());
    assert!(evicted.is_some());
    let evicted = evicted.unwrap();
    assert_eq!(evicted.line_number, 0);
    assert_eq!(evicted.content, "line 0");

    assert_eq!(buffer.len(), 3);
    assert_eq!(buffer.get(0), None); // Evicted
    assert_eq!(buffer.get(1), Some("line 1"));
    assert_eq!(buffer.get(2), Some("line 2"));
    assert_eq!(buffer.get(3), Some("line 3"));
}

#[test]
fn test_continuous_eviction() {
    let mut buffer = TailBuffer::new(2);

    buffer.push("line 0".to_string());
    buffer.push("line 1".to_string());

    // Push and evict multiple times
    for i in 2..10 {
        let evicted = buffer.push(format!("line {}", i));
        assert!(evicted.is_some());
        let evicted = evicted.unwrap();
        assert_eq!(evicted.line_number, i - 2);
    }

    // Buffer should contain lines 8 and 9
    assert_eq!(buffer.len(), 2);
    assert_eq!(buffer.get(8), Some("line 8"));
    assert_eq!(buffer.get(9), Some("line 9"));
    assert_eq!(buffer.start_line(), 8);
}

#[test]
fn test_contains() {
    let mut buffer = TailBuffer::new(3);

    buffer.push("line 0".to_string());
    buffer.push("line 1".to_string());
    buffer.push("line 2".to_string());
    buffer.push("line 3".to_string()); // Evicts line 0

    assert!(!buffer.contains(0)); // Evicted
    assert!(buffer.contains(1));
    assert!(buffer.contains(2));
    assert!(buffer.contains(3));
    assert!(!buffer.contains(4)); // Not yet added
}

#[test]
fn test_line_range() {
    let mut buffer = TailBuffer::new(5);

    assert_eq!(buffer.line_range(), (0, 0));

    buffer.push("line 0".to_string());
    buffer.push("line 1".to_string());
    assert_eq!(buffer.line_range(), (0, 2));

    // Fill and evict
    buffer.push("line 2".to_string());
    buffer.push("line 3".to_string());
    buffer.push("line 4".to_string());
    buffer.push("line 5".to_string()); // Evicts 0

    assert_eq!(buffer.line_range(), (1, 6));
}

#[test]
fn test_end_line() {
    let mut buffer = TailBuffer::new(5);

    assert_eq!(buffer.end_line(), None);

    buffer.push("line 0".to_string());
    assert_eq!(buffer.end_line(), Some(0));

    buffer.push("line 1".to_string());
    assert_eq!(buffer.end_line(), Some(1));
}

#[test]
fn tail_buffer_test_clear() {
    let mut buffer = TailBuffer::new(5);

    buffer.push("line 0".to_string());
    buffer.push("line 1".to_string());

    buffer.clear();

    assert!(buffer.is_empty());
    assert_eq!(buffer.start_line(), 0);
    assert_eq!(buffer.line_range(), (0, 0));
}

#[test]
fn test_reset_from() {
    let mut buffer = TailBuffer::new(5);

    buffer.push("line 0".to_string());
    buffer.push("line 1".to_string());

    buffer.reset_from(100);

    assert!(buffer.is_empty());
    assert_eq!(buffer.start_line(), 100);

    buffer.push("line 100".to_string());
    assert_eq!(buffer.get(100), Some("line 100"));
    assert_eq!(buffer.line_range(), (100, 101));
}

#[test]
fn test_iter() {
    let mut buffer = TailBuffer::new(5);

    buffer.push("a".to_string());
    buffer.push("b".to_string());
    buffer.push("c".to_string());

    let items: Vec<_> = buffer.iter().into_iter().collect();
    assert_eq!(items, vec![(0, "a"), (1, "b"), (2, "c")]);
}

#[test]
fn test_iter_after_eviction() {
    let mut buffer = TailBuffer::new(2);

    buffer.push("a".to_string());
    buffer.push("b".to_string());
    buffer.push("c".to_string()); // Evicts a

    let items: Vec<_> = buffer.iter().into_iter().collect();
    assert_eq!(items, vec![(1, "b"), (2, "c")]);
}

#[test]
fn tail_buffer_test_memory_usage() {
    let mut buffer = TailBuffer::new(100);
    let empty_usage = buffer.memory_usage();

    for i in 0..50 {
        buffer.push(format!("line {} with some content", i));
    }

    let with_content = buffer.memory_usage();
    assert!(
        with_content > empty_usage,
        "Memory should increase with content"
    );
}

#[test]
fn test_evicted_line_byte_len() {
    let mut buffer = TailBuffer::new(1);

    buffer.push("hello".to_string());
    let evicted = buffer.push("world".to_string());

    let evicted = evicted.unwrap();
    assert_eq!(evicted.byte_len, 6); // "hello" + newline
}

#[test]
fn test_get_out_of_range() {
    let mut buffer = TailBuffer::new(5);

    buffer.push("line 0".to_string());
    buffer.push("line 1".to_string());

    assert_eq!(buffer.get(0), Some("line 0"));
    assert_eq!(buffer.get(1), Some("line 1"));
    assert_eq!(buffer.get(2), None); // Not added yet
    assert_eq!(buffer.get(100), None); // Way out of range
}
