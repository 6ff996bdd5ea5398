use lazytail::mcp::response::{
    collect_filter_results, strip_context_response, strip_lines_response, strip_search_response,
    truncate_context_response, truncate_line, truncate_lines_response, truncate_search_response,
    FilterProgress, MAX_LINE_LEN,
};
use lazytail::mcp::types::{GetContextResponse, GetLinesResponse, LineInfo, SearchMatch, SearchResponse};

#[test]
fn tools_truncate_line_short_unchanged() {
    let line = "short line";
    let result = truncate_line(line, 500);
    assert_eq!(&*result, "short line");
    assert!(matches!(result, std::borrow::Cow::Borrowed(_)));
}

#[test]
fn tools_truncate_line_long_truncated() {
    let line = "x".repeat(600);
    let result = truncate_line(&line, 500);
    assert!(result.len() < line.len());
    assert!(result.starts_with(&"x".repeat(500)));
    assert!(result.contains("…[+100 chars]"));
}

#[test]
fn tools_truncate_line_multibyte_boundary() {
    // 'é' is 2 bytes in UTF-8; build a string where byte 500 lands mid-char
    let mut line = "a".repeat(499);
    line.push('é'); // bytes 499..501
    line.push_str(&"b".repeat(100));
    let result = truncate_line(&line, 500);
    // Must not panic and must be valid UTF-8
    assert!(result.contains('…'));
    // The truncation point should be at or before byte 500
    let prefix_end = result.find('…').unwrap();
    assert!(prefix_end <= 500);
}

#[test]
fn mod_truncate_line_short_unchanged() {
    let line = "short line";
    let result = truncate_line(line, 500);
    assert_eq!(&*result, "short line");
    assert!(matches!(result, std::borrow::Cow::Borrowed(_)));
}

#[test]
fn mod_truncate_line_long_truncated() {
    let line = "x".repeat(600);
    let result = truncate_line(&line, 500);
    assert!(result.len() < line.len());
    assert!(result.starts_with(&"x".repeat(500)));
    assert!(result.contains("…[+100 chars]"));
}

#[test]
fn mod_truncate_line_multibyte_boundary() {
    // 'é' is 2 bytes in UTF-8; build a string where byte 500 lands mid-char
    let mut line = "a".repeat(499);
    line.push('é'); // bytes 499..501
    line.push_str(&"b".repeat(100));
    let result = truncate_line(&line, 500);
    // Must not panic and must be valid UTF-8
    assert!(result.contains('…'));
    // The truncation point should be at or before byte 500
    let prefix_end = result.find('…').unwrap();
    assert!(prefix_end <= 500);
}

#[test]
fn truncate_line_exact_suffix_counts_cut_bytes() {
    let mut line = "a".repeat(499);
    line.push('é');
    line.push_str("bb");
    let result = truncate_line(&line, 500);
    assert_eq!(&*result, format!("{}…[+4 chars]", "a".repeat(499)));
}

#[test]
fn truncate_line_at_limit_is_borrowed() {
    let line = "y".repeat(500);
    let result = truncate_line(&line, 500);
    assert!(matches!(result, std::borrow::Cow::Borrowed(_)));
    assert_eq!(&*result, line.as_str());
}

fn line(n: usize, content: &str) -> LineInfo {
    LineInfo { line_number: n, content: content.to_string(), severity: None, rendered: None }
}

#[test]
fn truncate_and_strip_lines_response() {
    let mut resp = GetLinesResponse {
        lines: vec![line(0, "short"), line(1, &"z".repeat(MAX_LINE_LEN + 10))],
        total_lines: 2,
        has_more: false,
    };
    resp.lines[0].rendered = Some("r".repeat(MAX_LINE_LEN + 1));
    truncate_lines_response(&mut resp);
    assert_eq!(resp.lines[0].content, "short");
    assert_eq!(
        resp.lines[0].rendered.as_deref(),
        Some(format!("{}…[+1 chars]", "r".repeat(MAX_LINE_LEN)).as_str())
    );
    assert_eq!(resp.lines[1].content, format!("{}…[+10 chars]", "z".repeat(MAX_LINE_LEN)));
    assert_eq!(resp.total_lines, 2);

    let mut resp = GetLinesResponse {
        lines: vec![line(3, "\x1b[31mred\x1b[0m")],
        total_lines: 4,
        has_more: true,
    };
    strip_lines_response(&mut resp);
    assert_eq!(resp.lines[0].content, "red");
    assert_eq!(resp.lines[0].line_number, 3);
    assert!(resp.has_more);
}

#[test]
fn truncate_and_strip_search_response() {
    let long = "q".repeat(MAX_LINE_LEN + 2);
    let mut resp = SearchResponse {
        matches: vec![SearchMatch {
            line_number: 7,
            content: long.clone(),
            before: vec!["\x1b[1mb\x1b[0m".to_string(), long.clone()],
            after: vec!["a".to_string()],
        }],
        total_matches: 1,
        truncated: false,
        lines_searched: 10,
    };
    truncate_search_response(&mut resp);
    let cut = format!("{}…[+2 chars]", "q".repeat(MAX_LINE_LEN));
    assert_eq!(resp.matches[0].content, cut);
    assert_eq!(resp.matches[0].before[1], cut);
    assert_eq!(resp.matches[0].after, vec!["a".to_string()]);
    strip_search_response(&mut resp);
    assert_eq!(resp.matches[0].before[0], "b");
    assert_eq!(resp.matches[0].line_number, 7);
    assert_eq!(resp.lines_searched, 10);
}

#[test]
fn truncate_and_strip_context_response() {
    let mut resp = GetContextResponse {
        before_lines: vec![line(0, "\x1b[2Kx")],
        target_line: line(1, &"t".repeat(MAX_LINE_LEN + 3)),
        after_lines: vec![],
        total_lines: 2,
    };
    truncate_context_response(&mut resp);
    assert_eq!(resp.target_line.content, format!("{}…[+3 chars]", "t".repeat(MAX_LINE_LEN)));
    strip_context_response(&mut resp);
    assert_eq!(resp.before_lines[0].content, "x");
    assert_eq!(resp.total_lines, 2);
}

#[test]
fn collect_filter_results_concatenates_and_keeps_last_count() {
    let progress = vec![
        FilterProgress::Processing(5),
        FilterProgress::PartialResults { matches: vec![1, 4], lines_processed: 10 },
        FilterProgress::Complete { matches: vec![9], lines_processed: 20 },
    ];
    assert_eq!(collect_filter_results(progress), Ok((vec![1, 4, 9], 20)));
    assert_eq!(collect_filter_results(vec![]), Ok((vec![], 0)));
}

#[test]
fn collect_filter_results_stops_at_first_error() {
    let progress = vec![
        FilterProgress::PartialResults { matches: vec![1], lines_processed: 3 },
        FilterProgress::Error("bad regex".to_string()),
        FilterProgress::Error("later".to_string()),
    ];
    assert_eq!(collect_filter_results(progress), Err("bad regex".to_string()));
}
