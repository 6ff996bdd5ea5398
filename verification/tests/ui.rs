use lazytail::reader::stream_reader::StreamReader;
use lazytail::reader::LogReader;
use lazytail::tab::{FilterState, TabState};
use lazytail::theme::Theme;
use lazytail::index::Severity;
use lazytail::source::SourceStatus;
use lazytail::tab::ViewMode;
use lazytail::theme::Color;
use lazytail::ui::{
    aggregation_header, aggregation_row, aggregation_status_line, build_title, close_dialog_lines, close_popup_area, format_source_tag, help_lines, help_scroll, help_title, log_view_layout,
    log_row_prefix, severity_bg, source_panel_rows, stats_lines, status_bottom_line, style_log_row, status_help_text, status_text, visible_rows, PanelStyle, SourceRow, SourceType, TreeSelection,
};

type Tab = TabState<StreamReader, (), (), (), ()>;

fn tab_of(lines: usize) -> Tab {
    let text: String = (0..lines).map(|i| format!("line {}\n", i)).collect();
    let reader = StreamReader::from_text(&text);
    let total = reader.total_lines();
    TabState::from_source("app.log".to_string(), None, total, reader, None)
}

#[test]
fn title_in_normal_and_filtered_view() {
    let mut tab = tab_of(4);
    assert_eq!(build_title(&tab), "app.log");
    tab.apply_filter(vec![1], "err".to_string());
    assert_eq!(build_title(&tab), "app.log (Filter: \"err\")");
    tab.filter.pattern = None;
    assert_eq!(build_title(&tab), "app.log (Filtered)");
    tab.clear_filter();
    assert_eq!(build_title(&tab), "app.log");
}

#[test]
fn status_line_reports_position_and_filter() {
    let mut tab = tab_of(10);
    assert_eq!(status_text(&tab), " Line 10/10 | Total: 10 | Mode: Normal  | FOLLOW");
    tab.toggle_follow_mode();
    tab.filter.state = FilterState::Processing { lines_processed: 3 };
    assert_eq!(status_text(&tab), " Line 10/10 | Total: 10 | Mode: Normal | Filtering: 30%");
    tab.apply_filter(vec![2, 4], "x".to_string());
    assert_eq!(status_text(&tab), " Line 2/2 | Total: 10 | Mode: Filtered | Matches: 2");
}

#[test]
fn status_filtering_percent_of_empty_source_is_zero() {
    let mut tab = tab_of(0);
    tab.filter.state = FilterState::Processing { lines_processed: 0 };
    assert_eq!(status_text(&tab), " Line 1/0 | Total: 0 | Mode: Normal | Filtering: 0% | FOLLOW");
}

#[test]
fn help_text_depends_on_tab_count() {
    assert_eq!(status_help_text(1), " q - Quit | j/k - Navigate | g/G - Start/End | / - Filter | ? - Help");
    assert_eq!(status_help_text(3), " Tab/Shift+Tab - Switch | 1-9 - Select | ? - Help");
}

#[test]
fn source_tag_pads_and_cuts() {
    assert_eq!(format_source_tag("api", 8), "[api  ] ");
    assert_eq!(format_source_tag("web-server", 8), "[web..] ");
    assert_eq!(format_source_tag("abcde", 8), "[abcde] ");
    assert_eq!(format_source_tag("日本語ログ", 8), "[日..  ] ");
    assert_eq!(format_source_tag("x", 2), "[..] ");
}

fn line_texts<S>(lines: &[Vec<(String, S)>]) -> Vec<String> {
    lines.iter().map(|l| l.iter().map(|(t, _)| t.as_str()).collect::<String>()).collect()
}

#[test]
fn close_dialog_text_depends_on_what_closing_does() {
    let ui = Theme::dark().ui;
    let lines = close_dialog_lines("api", false, true, &ui);
    assert_eq!(line_texts(&lines), vec!["", "  Close api?", "  Source file will be deleted", "  y/Enter confirm  n/Esc cancel"]);
    assert_eq!(lines[1][1].1.fg, Some(ui.primary));
    assert!(lines[1][1].1.bold);
    let lines = close_dialog_lines("api", true, false, &ui);
    assert_eq!(line_texts(&lines)[2], "  This will quit the application");
    let lines = close_dialog_lines("api", false, false, &ui);
    assert_eq!(line_texts(&lines)[2], "");
    let long = "a-very-long-source-name-that-goes-on-and-on";
    let lines = close_dialog_lines(long, false, false, &ui);
    assert_eq!(lines[1][1].0, "a-very-long-source-name-tha...");
}

#[test]
fn close_popup_is_centered() {
    assert_eq!(close_popup_area(0, 0, 100, 40), (28, 17, 44, 6));
    assert_eq!(close_popup_area(2, 3, 30, 4), (4, 3, 26, 6));
}

#[test]
fn help_overlay_text_and_scrolling() {
    let ui = Theme::dark().ui;
    let lines = help_lines(&ui);
    assert_eq!(lines.len(), 52);
    assert_eq!(line_texts(&lines)[0], "LazyTail - Quick Reference");
    assert!(lines[0][0].1.bold);
    assert_eq!(line_texts(&lines)[51], "j/k to scroll, any other key to close");
    assert!(lines[51][0].1.italic);
    assert_eq!(help_scroll(52, 20, 100), (32, true, false));
    assert_eq!(help_scroll(52, 20, 5), (5, true, true));
    assert_eq!(help_scroll(52, 60, 5), (0, false, false));
    assert_eq!(help_title(true, true), " Help ↑↓ ");
    assert_eq!(help_title(false, true), " Help ↓ ");
    assert_eq!(help_title(false, false), " Help ");
}

#[test]
fn aggregation_rows_and_header() {
    let ui = Theme::dark().ui;
    let header = aggregation_header(&vec!["level".to_string()], 40, &ui);
    assert_eq!(line_texts(&[header.clone()])[0], format!(" {:<15} {:>7}{}", "level", "Count", " ".repeat(16)));
    assert!(header[0].1.bold);
    let row = aggregation_row(&vec!["error".to_string()], 5, 10, 46, &ui);
    let text = line_texts(&[row.clone()])[0].clone();
    assert_eq!(text, format!(" {:<14} {:>7} {}{}", "error", 5, "\u{2588}".repeat(10), "\u{2591}".repeat(10)));
    let row = aggregation_row(&vec!["a-very-long-field-value".to_string()], 1, 100, 20, &ui);
    assert_eq!(line_texts(&[row])[0], " a-very-long-fi       1");
    let (line, style) = aggregation_status_line(Some((2, 7)));
    assert_eq!(line, " Row 3/7 | Enter: drill down | Esc: back | / - re-filter");
    assert_eq!(style.fg, Some(lazytail::theme::Color::Magenta));
    assert_eq!(aggregation_status_line(None).0, " Computing aggregation...");
}

#[test]
fn status_bottom_line_prefers_aggregation_then_message_then_help() {
    let (t, st) = status_bottom_line(ViewMode::Aggregation, Some((0, 4)), Some("saved"), 1);
    assert_eq!(t, " Row 1/4 | Enter: drill down | Esc: back | / - re-filter");
    assert_eq!(st.fg, Some(Color::Magenta));
    let (t, st) = status_bottom_line(ViewMode::Normal, None, Some("Copied line"), 2);
    assert_eq!(t, " Copied line");
    assert_eq!(st.fg, Some(Color::Green));
    let (t, st) = status_bottom_line(ViewMode::Filtered, None, None, 2);
    assert_eq!(t, " Tab/Shift+Tab - Switch | 1-9 - Select | ? - Help");
    assert_eq!(st.fg, Some(Color::DarkGray));
    assert_eq!(status_bottom_line(ViewMode::Normal, None, None, 1).0, " q - Quit | j/k - Navigate | g/G - Start/End | / - Filter | ? - Help");
}

#[test]
fn log_view_layout_leaves_room_for_borders_and_prefix() {
    assert_eq!(log_view_layout(80, 24, false), (22, 78, 9, 69));
    assert_eq!(log_view_layout(80, 24, true), (22, 78, 17, 61));
    assert_eq!(log_view_layout(10, 1, true), (0, 8, 17, 0));
}

#[test]
fn visible_rows_takes_items_while_they_fit() {
    let heights = vec![1, 2, 3, 1, 1];
    assert_eq!(visible_rows(&heights, 0, 3), 2);
    assert_eq!(visible_rows(&heights, 0, 7), 4);
    assert_eq!(visible_rows(&heights, 2, 2), 1);
    assert_eq!(visible_rows(&heights, 3, 10), 2);
    assert_eq!(visible_rows(&heights, 5, 10), 0);
    assert_eq!(visible_rows(&heights, 9, 10), 0);
    assert_eq!(visible_rows(&vec![5], 0, 2), 1);
}

#[test]
fn stats_lines_show_counts_and_severity_chart() {
    let sev = vec![(0, "0".to_string()), (10, "10".to_string()), (5, "5".to_string()), (0, "0".to_string()), (1, "1".to_string()), (0, "0".to_string())];
    let lines = stats_lines(120, 7, true, true, Some("4.0 KB"), Some("12/s"), &sev);
    assert_eq!(
        line_texts(&lines),
        vec![
            " Loading... ".to_string(),
            " Lines:    120".to_string(),
            " Filtered: 7".to_string(),
            " Index: 4.0 KB".to_string(),
            " Speed: 12/s".to_string(),
            format!(" Error {} 10", "\u{2588}".repeat(10)),
            format!(" Warn  {}{} 5", "\u{2588}".repeat(5), "\u{2591}".repeat(5)),
            format!(" Debug {}{} 1", "\u{2588}".repeat(1), "\u{2591}".repeat(9)),
        ]
    );
    assert_eq!(lines[5][1].1.fg, Some(Color::Red));
    assert_eq!(lines[6][1].1.fg, Some(Color::Yellow));
    assert_eq!(lines[2][1].1.fg, Some(Color::Cyan));
    let lines = stats_lines(3, 3, false, false, None, None, &vec![]);
    assert_eq!(line_texts(&lines), vec![" Lines: 3".to_string()]);
}

fn row(name: &str, active: bool) -> SourceRow {
    SourceRow {
        name: name.to_string(),
        active,
        disabled: false,
        loading: false,
        filtered: false,
        follow: false,
        status: None,
        meta: " 1,234 \u{00b7} 5 KB".to_string(),
    }
}

#[test]
fn source_panel_lists_categories_and_numbers_sources() {
    let mut api = row("api", true);
    api.follow = true;
    api.status = Some(SourceStatus::Active);
    let cats = vec![
        (SourceType::ProjectSource, vec![api, row("worker", false)]),
        (SourceType::GlobalSource, vec![]),
        (SourceType::File, vec![row("a-rather-long-file-name.log", false)]),
    ];
    let expanded = [true, true, true, true, true];
    let (lines, sel) = source_panel_rows(&cats, &expanded, Some(TreeSelection::Item(SourceType::File, 0)), true, 24);
    assert_eq!(
        line_texts(&lines),
        vec![
            "\u{25bc} Project Sources".to_string(),
            "  1> api F \u{25cf} 1,234 \u{00b7} 5".to_string(),
            "  2  worker 1,234 \u{00b7} 5 ".to_string(),
            "\u{25bc} Files".to_string(),
            "  3  a-rather-long... ".to_string(),
        ]
    );
    assert_eq!(sel, Some(4));
    assert_eq!(lines[1][0].1, PanelStyle { fg: Some(Color::Yellow), bg: None, bold: true });
    assert_eq!(lines[4][0].1, PanelStyle { fg: Some(Color::White), bg: Some(Color::DarkGray), bold: true });
    assert_eq!(lines[0][0].1, PanelStyle { fg: Some(Color::Cyan), bg: None, bold: true });

    let collapsed = [false, true, true, true, true];
    let (lines, sel) = source_panel_rows(&cats, &collapsed, Some(TreeSelection::Category(SourceType::ProjectSource)), true, 24);
    assert_eq!(line_texts(&lines)[0], "\u{25b6} Project Sources");
    assert_eq!(line_texts(&lines)[2], "  3  a-rather-long... ");
    assert_eq!(lines[0][0].1.bg, Some(Color::DarkGray));
    assert_eq!(sel, None);

    let (_, sel) = source_panel_rows(&cats, &expanded, Some(TreeSelection::Item(SourceType::File, 0)), false, 24);
    assert_eq!(sel, None);
}

#[test]
fn log_rows_get_prefix_and_line_styles() {
    let ui = Theme::dark().ui;
    let first = log_row_prefix(41, Some(("api", Color::Cyan)), Severity::Error, 0, 17, &ui);
    assert_eq!(line_texts(&[first.clone()])[0], "[api  ]     42 | ");
    assert_eq!(first[0].1.fg, Some(Color::Cyan));
    assert_eq!(first[1].0, "    42 |");
    assert_eq!(first[1].1.bg, Some(ui.severity_error_bg));
    let next = log_row_prefix(41, None, Severity::Info, 1, 9, &ui);
    assert_eq!(line_texts(&[next])[0], " ".repeat(9));
    assert_eq!(severity_bg(Severity::Info, &ui), None);
    assert_eq!(severity_bg(Severity::Warn, &ui), Some(ui.severity_warn_bg));

    let plain = PanelStyle { fg: None, bg: None, bold: false };
    let gray = PanelStyle { fg: Some(Color::DarkGray), bg: None, bold: false };
    let mut row = log_row_prefix(0, None, Severity::Unknown, 0, 9, &ui);
    row.push(("hello".to_string(), gray));
    let sel = style_log_row(&row, 0, false, Severity::Unknown, true, false, &ui);
    assert_eq!(sel[2].1, PanelStyle { fg: Some(ui.selection_fg), bg: Some(ui.selection_bg), bold: true });
    assert_eq!(sel[2].0, "hello");
    let exp = style_log_row(&row, 0, false, Severity::Unknown, false, true, &ui);
    assert_eq!(exp[0].1.bg, Some(ui.expanded_bg));
    assert_eq!(exp[1].1.bg, Some(ui.expanded_bg));
    assert_eq!(exp[2].1, PanelStyle { fg: Some(Color::DarkGray), bg: Some(ui.expanded_bg), bold: false });
    let exp_err = style_log_row(&row, 0, false, Severity::Error, false, true, &ui);
    assert_eq!(exp_err[0].1, plain);
    let normal = style_log_row(&row, 0, false, Severity::Fatal, false, false, &ui);
    assert_eq!(normal[0].1.bg, Some(ui.severity_fatal_bg));
    assert_eq!(normal[2].1, gray);
}
