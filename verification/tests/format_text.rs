use lazytail::mcp::format::{format_context_text, format_lines_text, format_search_text};
use lazytail::mcp::types::{GetContextResponse, GetLinesResponse, LineInfo, SearchMatch, SearchResponse};


#[test]
fn lines_text_basic() {
    let resp = GetLinesResponse {
        lines: vec![
            LineInfo {
                line_number: 0,
                content: "first line".into(),
                severity: None,
                rendered: None,
            },
            LineInfo {
                line_number: 1,
                content: "second line".into(),
                severity: None,
                rendered: None,
            },
        ],
        total_lines: 100,
        has_more: true,
    };
    let text = format_lines_text(&resp);
    assert!(text.starts_with("--- total_lines: 100\n"));
    assert!(text.contains("--- has_more: true\n"));
    assert!(text.contains("0|first line\n"));
    assert!(text.contains("1|second line\n"));
}

#[test]
fn lines_text_empty() {
    let resp = GetLinesResponse {
        lines: vec![],
        total_lines: 0,
        has_more: false,
    };
    let text = format_lines_text(&resp);
    assert!(text.contains("--- total_lines: 0\n"));
    assert!(text.contains("--- has_more: false\n"));
    // After the blank line separator, no content lines
    let after_blank = text.split("\n\n").nth(1).unwrap();
    assert!(after_blank.is_empty());
}

#[test]
fn lines_text_json_content_verbatim() {
    let json_line = r#"{"level":"error","msg":"connection timeout"}"#;
    let resp = GetLinesResponse {
        lines: vec![LineInfo {
            line_number: 42,
            content: json_line.into(),
            severity: None,
            rendered: None,
        }],
        total_lines: 100,
        has_more: false,
    };
    let text = format_lines_text(&resp);
    // JSON should appear verbatim, no escaping
    assert!(text.contains(&format!("42|{json_line}\n")));
    assert!(!text.contains('\\'));
}

#[test]
fn lines_text_pipe_in_content() {
    let resp = GetLinesResponse {
        lines: vec![LineInfo {
            line_number: 5,
            content: "data | more | pipes".into(),
            severity: None,
            rendered: None,
        }],
        total_lines: 10,
        has_more: false,
    };
    let text = format_lines_text(&resp);
    assert!(text.contains("5|data | more | pipes\n"));
}

#[test]
fn search_text_basic() {
    let resp = SearchResponse {
        matches: vec![SearchMatch {
            line_number: 42,
            content: "error: something failed".into(),
            before: vec![],
            after: vec![],
        }],
        total_matches: 1,
        truncated: false,
        lines_searched: 1000,
    };
    let text = format_search_text(&resp);
    assert!(text.contains("--- total_matches: 1\n"));
    assert!(text.contains("--- truncated: false\n"));
    assert!(text.contains("--- lines_searched: 1000\n"));
    assert!(text.contains("=== match\n"));
    assert!(text.contains("> 42|error: something failed\n"));
}

#[test]
fn search_text_with_context() {
    let resp = SearchResponse {
        matches: vec![SearchMatch {
            line_number: 10,
            content: "match line".into(),
            before: vec!["before 1".into(), "before 2".into()],
            after: vec!["after 1".into()],
        }],
        total_matches: 1,
        truncated: false,
        lines_searched: 100,
    };
    let text = format_search_text(&resp);
    assert!(text.contains("  8|before 1\n"));
    assert!(text.contains("  9|before 2\n"));
    assert!(text.contains("> 10|match line\n"));
    assert!(text.contains("  11|after 1\n"));
}

#[test]
fn search_text_truncated() {
    let resp = SearchResponse {
        matches: vec![],
        total_matches: 500,
        truncated: true,
        lines_searched: 10000,
    };
    let text = format_search_text(&resp);
    assert!(text.contains("--- total_matches: 500\n"));
    assert!(text.contains("--- truncated: true\n"));
}

#[test]
fn search_text_empty() {
    let resp = SearchResponse {
        matches: vec![],
        total_matches: 0,
        truncated: false,
        lines_searched: 100,
    };
    let text = format_search_text(&resp);
    assert!(text.contains("--- total_matches: 0\n"));
    assert!(!text.contains("=== match"));
}

#[test]
fn search_text_json_content_verbatim() {
    let json_content = r#"{"level":"error","msg":"timeout"}"#;
    let resp = SearchResponse {
        matches: vec![SearchMatch {
            line_number: 42,
            content: json_content.into(),
            before: vec![],
            after: vec![],
        }],
        total_matches: 1,
        truncated: false,
        lines_searched: 100,
    };
    let text = format_search_text(&resp);
    assert!(text.contains(&format!("> 42|{json_content}\n")));
    assert!(!text.contains('\\'));
}

#[test]
fn context_text_basic() {
    let resp = GetContextResponse {
        before_lines: vec![
            LineInfo {
                line_number: 40,
                content: "before line 1".into(),
                severity: None,
                rendered: None,
            },
            LineInfo {
                line_number: 41,
                content: "before line 2".into(),
                severity: None,
                rendered: None,
            },
        ],
        target_line: LineInfo {
            line_number: 42,
            content: "target line content".into(),
            severity: None,
            rendered: None,
        },
        after_lines: vec![
            LineInfo {
                line_number: 43,
                content: "after line 1".into(),
                severity: None,
                rendered: None,
            },
            LineInfo {
                line_number: 44,
                content: "after line 2".into(),
                severity: None,
                rendered: None,
            },
        ],
        total_lines: 1000,
    };
    let text = format_context_text(&resp);
    assert!(text.contains("--- total_lines: 1000\n"));
    assert!(text.contains("  40|before line 1\n"));
    assert!(text.contains("  41|before line 2\n"));
    assert!(text.contains("> 42|target line content\n"));
    assert!(text.contains("  43|after line 1\n"));
    assert!(text.contains("  44|after line 2\n"));
}

#[test]
fn context_text_no_surrounding_lines() {
    let resp = GetContextResponse {
        before_lines: vec![],
        target_line: LineInfo {
            line_number: 0,
            content: "only line".into(),
            severity: None,
            rendered: None,
        },
        after_lines: vec![],
        total_lines: 1,
    };
    let text = format_context_text(&resp);
    assert!(text.contains("--- total_lines: 1\n"));
    assert!(text.contains("> 0|only line\n"));
}

#[test]
fn search_text_output_budget_caps_output() {
    // Build a response with many matches whose lines are ~500 chars each.
    // 200 matches * ~500 chars = ~100KB, which exceeds the 80KB budget.
    let matches: Vec<SearchMatch> = (0..200)
        .map(|i| SearchMatch {
            line_number: i,
            content: "x".repeat(490),
            before: vec![],
            after: vec![],
        })
        .collect();
    let resp = SearchResponse {
        total_matches: 200,
        truncated: false,
        lines_searched: 10000,
        matches,
    };
    let text = format_search_text(&resp);

    // Output should be capped near 80KB
    assert!(
        text.len() < 100_000,
        "output should be capped, got {} bytes",
        text.len()
    );
    assert!(text.contains("--- output_truncated_at_bytes:"));
    assert!(text.contains("--- matches_shown:"));

    // Fewer than all 200 matches should be shown
    let shown: usize = text.matches("=== match").count();
    assert!(
        shown < 200,
        "should show fewer than 200 matches, got {shown}"
    );
    assert!(shown > 0, "should show at least some matches");
}

#[test]
fn search_text_small_response_not_truncated() {
    let resp = SearchResponse {
        matches: vec![SearchMatch {
            line_number: 0,
            content: "short".into(),
            before: vec![],
            after: vec![],
        }],
        total_matches: 1,
        truncated: false,
        lines_searched: 100,
    };
    let text = format_search_text(&resp);
    assert!(!text.contains("output_truncated_at_bytes"));
    assert!(text.contains("=== match"));
}
