use lazytail::text_wrap::{wrap_content, wrap_plain, wrap_spans};
use unicode_width::UnicodeWidthStr;
use ratatui::style::{Color, Style};

fn plain_text(lines: &[Vec<String>]) -> Vec<String> {
    lines.iter().map(|l| l.concat()).collect()
}

fn span_text<S>(lines: &[Vec<(String, S)>]) -> Vec<String> {
    lines
        .iter()
        .map(|l| l.iter().map(|(t, _)| t.as_str()).collect::<String>())
        .collect()
}

fn raw(text: &str) -> (String, Style) {
    (text.to_string(), Style::default())
}

fn styled(text: &str, style: Style) -> (String, Style) {
    (text.to_string(), style)
}

#[test]
fn log_view_short_content_single_line() {
    let lines = wrap_content("hello", 20).0;
    assert_eq!(lines.len(), 1);
    assert_eq!(span_text(&lines), vec!["hello"]);
    let lines = wrap_plain("hello", 20);
    assert_eq!(lines.len(), 1);
    assert_eq!(plain_text(&lines), vec!["hello"]);
}

#[test]
fn log_view_long_content_wraps_to_multiple_lines() {
    let lines = wrap_content("abcdefghij", 4).0;
    assert_eq!(lines.len(), 3);
    assert_eq!(span_text(&lines), vec!["abcd", "efgh", "ij"]);
    let lines = wrap_plain("abcdefghij", 4);
    assert_eq!(lines.len(), 3);
    assert_eq!(plain_text(&lines), vec!["abcd", "efgh", "ij"]);
}

#[test]
fn log_view_content_exactly_at_width() {
    let lines = wrap_content("abcd", 4).0;
    assert_eq!(lines.len(), 1);
    assert_eq!(span_text(&lines), vec!["abcd"]);
    let lines = wrap_plain("abcd", 4);
    assert_eq!(lines.len(), 1);
    assert_eq!(plain_text(&lines), vec!["abcd"]);
}

#[test]
fn log_view_zero_width_returns_default() {
    let lines = wrap_content("hello", 0).0;
    assert_eq!(lines.len(), 1);
    let lines = wrap_plain("hello", 0);
    assert_eq!(lines.len(), 1);
    let spans = vec![raw("hello")];
    let lines = wrap_spans(spans, 0);
    assert_eq!(lines.len(), 1);
}

#[test]
fn empty_content_single_line() {
    let lines = wrap_content("", 10).0;
    assert_eq!(lines.len(), 1);
}

#[test]
fn wrap_height_matches_line_count() {
    let lines = wrap_content("a]b]c]d]e]f]g]h]i]j]k]l]m]n]o]p", 10).0;
    assert!(lines.len() > 1);
    for line in &lines {
        let width: usize = line.iter().map(|(t, _)| t.width()).sum();
        assert!(width <= 10, "line width {} exceeds 10", width);
    }
}

#[test]
fn preserves_ansi_escape_sequences_literally() {
    let content = "\x1b[31mred\x1b[0m";
    let lines = wrap_plain(content, 100);
    let text: String = lines[0].concat();
    assert_eq!(text, content);
    assert_eq!(lines[0].len(), 1);
}

#[test]
fn short_spans_single_line() {
    let spans = vec![styled("hello", Style::default().fg(Color::Red)), raw(" world")];
    let lines = wrap_spans(spans, 20);
    assert_eq!(lines.len(), 1);
    assert_eq!(span_text(&lines), vec!["hello world"]);
}

#[test]
fn wraps_styled_spans_across_lines() {
    let spans = vec![
        styled("abcd", Style::default().fg(Color::Red)),
        styled("efgh", Style::default().fg(Color::Blue)),
        raw("ij"),
    ];
    let lines = wrap_spans(spans, 4);
    assert_eq!(lines.len(), 3);
    assert_eq!(span_text(&lines), vec!["abcd", "efgh", "ij"]);
    assert!(lines[0].iter().any(|(t, s)| t == "red" && s.fg == Some(Color::Red)));
    assert_eq!(lines[1][0].1.fg, Some(Color::Blue));
}

#[test]
fn splits_single_span_across_lines() {
    let spans = vec![styled("abcdefghij", Style::default().fg(Color::Green))];
    let lines = wrap_spans(spans, 4);
    assert_eq!(lines.len(), 3);
    assert_eq!(span_text(&lines), vec!["abcd", "efgh", "ij"]);
    for line in &lines {
        for span in line {
            assert_eq!(span.1.fg, Some(Color::Green));
        }
    }
}

#[test]
fn empty_spans_single_line() {
    let spans: Vec<(String, Style)> = vec![];
    let lines = wrap_spans(spans, 10);
    assert_eq!(lines.len(), 1);
}

#[test]
fn wrap_content_takes_styles_from_escape_sequences() {
    let (lines, styles) = wrap_content("\x1b[31mred\x1b[0m plain", 5);
    assert_eq!(span_text(&lines), vec!["red p", "lain"]);
    assert!(lines[0].iter().any(|(t, k)| t == "red" && styles[*k].fg.as_deref() == Some("Red")));
    let (lines, styles) = wrap_content("\x1b[31m日本語\x1b[0m", 4);
    assert_eq!(span_text(&lines), vec!["日本", "語"]);
    assert!(lines.iter().flatten().all(|(_, k)| styles[*k].fg.as_deref() == Some("Red")));
    let lines = wrap_content("first\nsecond", 20).0;
    assert_eq!(span_text(&lines), vec!["first"]);
}
