use lazytail::text_wrap::{expand_tabs, wrap_plain, wrap_spans};

#[test]
fn expand_tabs_to_next_multiple_of_four() {
    assert_eq!(expand_tabs("a\tb"), "a   b");
    assert_eq!(expand_tabs("\tx"), "    x");
    assert_eq!(expand_tabs("abcd\te"), "abcd    e");
    assert_eq!(expand_tabs("no tabs"), "no tabs");
    assert_eq!(expand_tabs("é\t|"), "é   |");
}

#[test]
fn wrap_plain_cuts_at_width() {
    assert_eq!(wrap_plain("abcdefg", 3), vec![vec!["abc".to_string()], vec!["def".to_string()], vec!["g".to_string()]]);
    assert_eq!(wrap_plain("abc", 3), vec![vec!["abc".to_string()]]);
    assert_eq!(wrap_plain("abc", 0), vec![Vec::<String>::new()]);
    assert_eq!(wrap_plain("", 5), vec![vec![String::new()]]);
}

#[test]
fn wrap_plain_keeps_wide_characters_whole() {
    // each CJK ideograph takes two columns
    assert_eq!(wrap_plain("日本語", 3), vec![vec!["日".to_string()], vec!["本".to_string()], vec!["語".to_string()]]);
    // a character wider than the line still takes a line of its own
    assert_eq!(wrap_plain("日日", 1), vec![vec!["日".to_string()], vec!["日".to_string()]]);
}

#[test]
fn wrap_spans_keeps_styles_and_text() {
    let spans = vec![("abc".to_string(), 1u8), ("defgh".to_string(), 2u8)];
    let lines = wrap_spans(spans, 4);
    assert_eq!(
        lines,
        vec![
            vec![("abc".to_string(), 1u8), ("d".to_string(), 2u8)],
            vec![("efgh".to_string(), 2u8)],
        ]
    );
    let whole = wrap_spans(vec![("ab".to_string(), 0u8), ("c".to_string(), 3u8)], 3);
    assert_eq!(whole, vec![vec![("ab".to_string(), 0u8), ("c".to_string(), 3u8)]]);
    assert_eq!(wrap_spans(vec![("x".to_string(), 0u8)], 0), vec![Vec::<(String, u8)>::new()]);
}

#[test]
fn wrap_spans_breaks_before_a_span_that_does_not_fit() {
    // "ab" fills 2 of 3 columns; the wide "日" (2 columns) cannot join, so the
    // line ends and it starts the next one
    let lines = wrap_spans(vec![("ab".to_string(), 0u8), ("日x".to_string(), 1u8)], 3);
    assert_eq!(
        lines,
        vec![vec![("ab".to_string(), 0u8)], vec![("日x".to_string(), 1u8)]]
    );
}
