use lazytail::index::{IndexReader, Severity};
use lazytail::index::flags::FLAG_FORMAT_JSON;
use lazytail::mcp::tools::{
    context_response, lines_content, lines_response, search_response, tail_response, RenderContext,
};
use lazytail::renderer::PresetRegistry;
use lazytail::test_utils::MockLogReader;

fn reader(n: usize) -> MockLogReader {
    MockLogReader::new((0..n).map(|i| format!("line {}", i)).collect())
}

#[test]
fn lines_response_range_and_has_more() {
    let registry = PresetRegistry::new(Vec::new());
    let names: Vec<String> = Vec::new();
    let ctx = RenderContext { registry: &registry, renderer_names: &names };
    let mut r = reader(10);
    let resp = lines_response(&mut r, None, &ctx, 2, 3, false, false);
    assert_eq!(resp.total_lines, 10);
    assert!(resp.has_more);
    let numbers: Vec<usize> = resp.lines.iter().map(|l| l.line_number).collect();
    assert_eq!(numbers, vec![2, 3, 4]);
    assert_eq!(resp.lines[0].content, "line 2");
    let resp = lines_response(&mut r, None, &ctx, 8, 5000, false, false);
    assert!(!resp.has_more);
    assert_eq!(resp.lines.len(), 2);
}

#[test]
fn tail_response_last_lines_and_since() {
    let registry = PresetRegistry::new(Vec::new());
    let names: Vec<String> = Vec::new();
    let ctx = RenderContext { registry: &registry, renderer_names: &names };
    let mut r = reader(10);
    let resp = tail_response(&mut r, None, &ctx, 3, None, false, false);
    assert_eq!(resp.lines.iter().map(|l| l.line_number).collect::<Vec<_>>(), vec![7, 8, 9]);
    assert!(resp.has_more);
    let resp = tail_response(&mut r, None, &ctx, 2, Some(4), false, false);
    assert_eq!(resp.lines.iter().map(|l| l.line_number).collect::<Vec<_>>(), vec![5, 6]);
    assert!(resp.has_more);
    let resp = tail_response(&mut r, None, &ctx, 20, None, false, false);
    assert_eq!(resp.lines.len(), 10);
    assert!(!resp.has_more);
    let resp = tail_response(&mut r, None, &ctx, 5, Some(usize::MAX), false, false);
    assert!(resp.lines.is_empty());
}

#[test]
fn context_response_around_target() {
    let registry = PresetRegistry::new(Vec::new());
    let names: Vec<String> = Vec::new();
    let ctx = RenderContext { registry: &registry, renderer_names: &names };
    let mut r = reader(6);
    let resp = context_response(&mut r, None, &ctx, 1, 3, 2, false, false).unwrap();
    assert_eq!(resp.before_lines.iter().map(|l| l.line_number).collect::<Vec<_>>(), vec![0]);
    assert_eq!(resp.target_line.content, "line 1");
    assert_eq!(resp.after_lines.iter().map(|l| l.line_number).collect::<Vec<_>>(), vec![2, 3]);
    assert_eq!(resp.total_lines, 6);
    match context_response(&mut r, None, &ctx, 6, 1, 1, false, false) {
        Err(m) => assert_eq!(m, "Line 6 does not exist (file has 6 lines)"),
        Ok(_) => panic!("expected an error"),
    }
}

#[test]
fn responses_carry_severity_and_rendering() {
    let registry = PresetRegistry::new(Vec::new());
    let names = vec!["json".to_string()];
    let ctx = RenderContext { registry: &registry, renderer_names: &names };
    let mut r = MockLogReader::new(vec![
        r#"{"level":"error","message":"boom"}"#.to_string(),
        "\x1b[31mplain\x1b[0m".to_string(),
    ]);
    let index = IndexReader::from_columns(
        vec![1, 2],
        vec![Severity::Error, Severity::Unknown],
        vec![FLAG_FORMAT_JSON, 0],
    );
    let resp = lines_response(&mut r, Some(&index), &ctx, 0, 10, false, false);
    assert_eq!(resp.lines[0].severity.as_deref(), Some("error"));
    assert_eq!(resp.lines[0].rendered.as_deref(), Some(" error | boom "));
    assert_eq!(resp.lines[1].severity, None);
    assert_eq!(resp.lines[1].rendered, None);
    assert_eq!(resp.lines[1].content, "plain");
    let raw = lines_response(&mut r, Some(&index), &ctx, 1, 1, true, false);
    assert_eq!(raw.lines[0].content, "\x1b[31mplain\x1b[0m");
}

#[test]
fn lines_content_reads_matches_with_context() {
    let data = b"zero\none\ntwo\nthree\nfour";
    let matches = lines_content(data, &[0, 2, 4, 9], 1);
    assert_eq!(matches[0].content, "zero");
    assert!(matches[0].before.is_empty());
    assert_eq!(matches[0].after, vec!["one".to_string()]);
    assert_eq!(matches[1].before, vec!["one".to_string()]);
    assert_eq!(matches[1].after, vec!["three".to_string()]);
    assert_eq!(matches[2].content, "four");
    assert!(matches[2].after.is_empty());
    assert_eq!(matches[3].content, "");
    assert!(matches[3].before.is_empty());
    let no_context = lines_content(b"a\nb\n", &[1], 0);
    assert_eq!(no_context[0].content, "b");
    assert!(no_context[0].before.is_empty() && no_context[0].after.is_empty());
    // a trailing line feed does not open another line
    let end = lines_content(b"a\n", &[1], 0);
    assert_eq!(end[0].content, "");
}

#[test]
fn search_response_caps_and_flags() {
    let data = b"a\nb\nc\nd";
    let resp = search_response(data, vec![0, 1, 2, 3], 4, 2, 0, false, false);
    assert_eq!(resp.total_matches, 4);
    assert!(resp.truncated);
    assert_eq!(resp.lines_searched, 4);
    assert_eq!(resp.matches.len(), 2);
    assert_eq!(resp.matches[1].content, "b");
    let resp = search_response(data, vec![3], 4, 10, 0, false, false);
    assert!(!resp.truncated);
    assert_eq!(resp.matches[0].content, "d");
}
