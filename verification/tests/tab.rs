use lazytail::reader::stream_reader::StreamReader;
use lazytail::reader::LogReader;
use lazytail::tab::{ExpandMode, TabState, ViewMode};

type Tab = TabState<StreamReader, (), (), (), ()>;

/// The text a log file with these lines holds, one line each.
fn create_temp_log_file(lines: &[&str]) -> String {
    lines.iter().map(|l| format!("{}\n", l)).collect()
}

/// A tab over that text, as opening the file would give.
fn open_tab(text: &str) -> Tab {
    let reader = StreamReader::from_text(text);
    let total = reader.total_lines();
    TabState::from_source(
        "test.log".to_string(),
        Some("/tmp/test.log".to_string()),
        total,
        reader,
        None,
    )
}



#[test]
fn test_tab_creation() {
    let temp_file = create_temp_log_file(&["line1", "line2", "line3"]);
    let tab = open_tab(&temp_file);

    assert_eq!(tab.total_lines, 3);
    assert_eq!(tab.selected_line, 2); // Starts at end in follow mode
    assert_eq!(tab.mode, ViewMode::Normal);
    assert!(tab.follow_mode); // Follow mode enabled by default
}

#[test]
fn test_tab_name_extraction() {
    let temp_file = create_temp_log_file(&["line1"]);
    let tab = open_tab(&temp_file);

    // Name should be extracted from the filename
    assert!(!tab.name.is_empty());
}

#[test]
fn test_navigation() {
    let temp_file = create_temp_log_file(&["line1", "line2", "line3", "line4", "line5"]);
    let mut tab = open_tab(&temp_file);

    // Starts at end (line 4) in follow mode
    assert_eq!(tab.selected_line, 4);

    // Jump to start first
    tab.jump_to_start();
    assert_eq!(tab.selected_line, 0);

    // Scroll down
    tab.scroll_down();
    assert_eq!(tab.selected_line, 1);

    // Scroll up
    tab.scroll_up();
    assert_eq!(tab.selected_line, 0);

    // Can't scroll above 0
    tab.scroll_up();
    assert_eq!(tab.selected_line, 0);

    // Jump to end
    tab.jump_to_end();
    assert_eq!(tab.selected_line, 4);
}

#[test]
fn test_filter_application() {
    let temp_file = create_temp_log_file(&["error", "info", "error", "debug"]);
    let mut tab = open_tab(&temp_file);

    tab.apply_filter(vec![0, 2], "error".to_string());

    assert_eq!(tab.mode, ViewMode::Filtered);
    assert_eq!(tab.line_indices, vec![0, 2]);
    assert_eq!(tab.filter.pattern, Some("error".to_string()));
}

#[test]
fn test_clear_filter() {
    let temp_file = create_temp_log_file(&["error", "info", "error", "debug"]);
    let mut tab = open_tab(&temp_file);

    tab.apply_filter(vec![0, 2], "error".to_string());
    tab.clear_filter();

    assert_eq!(tab.mode, ViewMode::Normal);
    assert_eq!(tab.line_indices.len(), 4);
    assert!(tab.filter.pattern.is_none());
}

#[test]
fn test_follow_mode() {
    let temp_file = create_temp_log_file(&["line1", "line2", "line3"]);
    let mut tab = open_tab(&temp_file);

    // Follow mode is now enabled by default
    assert!(tab.follow_mode);
    assert_eq!(tab.selected_line, 2); // Starts at end

    // Toggle off
    tab.toggle_follow_mode();
    assert!(!tab.follow_mode);

    // Toggle back on - should jump to end
    tab.toggle_follow_mode();
    assert!(tab.follow_mode);
    assert_eq!(tab.selected_line, 2);
}

#[test]
fn test_page_navigation() {
    let lines: Vec<&str> = (0..100).map(|_| "line").collect();
    let temp_file = create_temp_log_file(&lines);
    let mut tab = open_tab(&temp_file);

    // Jump to start first (starts at end in follow mode)
    tab.jump_to_start();
    assert_eq!(tab.selected_line, 0);

    tab.page_down(20);
    assert_eq!(tab.selected_line, 20);

    tab.page_up(10);
    assert_eq!(tab.selected_line, 10);
}

#[test]
fn test_jump_to_line() {
    let temp_file = create_temp_log_file(&["line1", "line2", "line3", "line4", "line5"]);
    let mut tab = open_tab(&temp_file);

    // Jump to line 3 (1-indexed)
    tab.jump_to_line(3);
    assert_eq!(tab.selected_line, 2); // 0-indexed

    // Jump to line 1
    tab.jump_to_line(1);
    assert_eq!(tab.selected_line, 0);

    // Jump beyond total lines
    tab.jump_to_line(100);
    assert_eq!(tab.selected_line, 4); // Last line
}

#[test]
fn test_mouse_scroll() {
    let lines: Vec<&str> = (0..50).map(|_| "line").collect();
    let temp_file = create_temp_log_file(&lines);
    let mut tab = open_tab(&temp_file);

    // Jump to start first (starts at end in follow mode)
    tab.jump_to_start();

    // Position selection at line 5
    tab.page_down(5);
    assert_eq!(tab.selected_line, 5);

    // Mouse scroll down - moves both viewport and selection together
    tab.mouse_scroll_down(3);
    assert_eq!(tab.selected_line, 8); // 5 + 3

    // Mouse scroll up
    tab.mouse_scroll_up(2);
    assert_eq!(tab.selected_line, 6); // 8 - 2
}

#[test]
fn test_toggle_expansion() {
    let temp_file = create_temp_log_file(&["line1", "line2", "line3"]);
    let mut tab = open_tab(&temp_file);

    // Jump to start (starts at end in follow mode)
    tab.jump_to_start();

    // Initially no lines are expanded
    assert!(!tab.is_line_expanded(0));
    assert!(tab.expansion.expanded_lines.is_empty());

    // Expand line 0
    tab.toggle_expansion();
    assert!(tab.is_line_expanded(0));
    assert_eq!(tab.expansion.expanded_lines.len(), 1);

    // Toggle again - should collapse
    tab.toggle_expansion();
    assert!(!tab.is_line_expanded(0));
    assert!(tab.expansion.expanded_lines.is_empty());
}

#[test]
fn test_multiple_expanded_lines() {
    let temp_file = create_temp_log_file(&["line1", "line2", "line3", "line4", "line5"]);
    let mut tab = open_tab(&temp_file);

    // Jump to start (starts at end in follow mode)
    tab.jump_to_start();

    // Default is Multiple mode
    assert_eq!(tab.expansion.mode, ExpandMode::Multiple);

    // Expand line 0
    tab.toggle_expansion();
    assert!(tab.is_line_expanded(0));

    // Move to line 2 and expand
    tab.scroll_down();
    tab.scroll_down();
    tab.toggle_expansion();
    assert!(tab.is_line_expanded(2));

    // Both should be expanded
    assert!(tab.is_line_expanded(0));
    assert!(tab.is_line_expanded(2));
    assert_eq!(tab.expansion.expanded_lines.len(), 2);
}

#[test]
fn test_single_expand_mode() {
    let temp_file = create_temp_log_file(&["line1", "line2", "line3"]);
    let mut tab = open_tab(&temp_file);

    // Jump to start (starts at end in follow mode)
    tab.jump_to_start();

    // Switch to single mode
    tab.expansion.mode = ExpandMode::Single;

    // Expand line 0
    tab.toggle_expansion();
    assert!(tab.is_line_expanded(0));

    // Move to line 1 and expand
    tab.scroll_down();
    tab.toggle_expansion();

    // Only line 1 should be expanded now (single mode collapses others)
    assert!(!tab.is_line_expanded(0));
    assert!(tab.is_line_expanded(1));
    assert_eq!(tab.expansion.expanded_lines.len(), 1);
}

#[test]
fn test_collapse_all() {
    let temp_file = create_temp_log_file(&["line1", "line2", "line3"]);
    let mut tab = open_tab(&temp_file);

    // Jump to start (starts at end in follow mode)
    tab.jump_to_start();

    // Expand multiple lines
    tab.toggle_expansion(); // Line 0
    tab.scroll_down();
    tab.toggle_expansion(); // Line 1
    tab.scroll_down();
    tab.toggle_expansion(); // Line 2

    assert_eq!(tab.expansion.expanded_lines.len(), 3);

    // Collapse all
    tab.collapse_all();
    assert!(tab.expansion.expanded_lines.is_empty());
    assert!(!tab.is_line_expanded(0));
    assert!(!tab.is_line_expanded(1));
    assert!(!tab.is_line_expanded(2));
}

#[test]
fn test_expansion_survives_filter() {
    let temp_file = create_temp_log_file(&["error", "info", "error", "debug"]);
    let mut tab = open_tab(&temp_file);

    // Jump to start (starts at end in follow mode)
    tab.jump_to_start();

    // Expand line 0 (file line 0)
    tab.toggle_expansion();
    assert!(tab.is_line_expanded(0));

    // Apply filter - should keep expanded_lines (stores file line numbers)
    tab.apply_filter(vec![0, 2], "error".to_string());

    // Line 0 should still be marked as expanded
    assert!(tab.is_line_expanded(0));

    // Clear filter
    tab.clear_filter();

    // Still expanded
    assert!(tab.is_line_expanded(0));
}

#[test]
fn test_expansion_with_empty_file() {
    let temp_file = create_temp_log_file(&[]);
    let mut tab = open_tab(&temp_file);

    // Toggle expansion on empty file should not panic
    tab.toggle_expansion();
    assert!(tab.expansion.expanded_lines.is_empty());
}

#[test]
fn filter_from_origin_selects_nearest_match() {
    let lines: Vec<&str> = (0..20).map(|_| "line").collect();
    let mut tab = open_tab(&create_temp_log_file(&lines));
    tab.jump_to_line(8); // file line 7
    assert_eq!(tab.selected_line, 7);
    tab.filter.origin_line = Some(7);
    tab.apply_filter(vec![2, 6, 9, 15], "x".to_string());
    // 6 is one away from 7, 9 two away
    assert_eq!(tab.viewport.anchor_line, 6);
    assert_eq!(tab.selected_line, 1);
    assert_eq!(tab.filter.last_filtered_line, 20);
    assert_eq!(tab.filter.state, lazytail::tab::FilterState::Complete { matches: 4 });
}

#[test]
fn filter_origin_tie_prefers_earlier_match() {
    let lines: Vec<&str> = (0..10).map(|_| "line").collect();
    let mut tab = open_tab(&create_temp_log_file(&lines));
    tab.filter.origin_line = Some(5);
    tab.apply_filter(vec![3, 7], "x".to_string());
    assert_eq!(tab.viewport.anchor_line, 3);
    assert_eq!(tab.selected_line, 0);
}

#[test]
fn clear_filter_returns_to_origin() {
    let lines: Vec<&str> = (0..10).map(|_| "line").collect();
    let mut tab = open_tab(&create_temp_log_file(&lines));
    tab.filter.origin_line = Some(4);
    tab.apply_filter(vec![1, 8], "x".to_string());
    tab.clear_filter();
    assert_eq!(tab.viewport.anchor_line, 4);
    assert_eq!(tab.selected_line, 4);
    assert!(tab.filter.origin_line.is_none());
    assert_eq!(tab.line_indices, (0..10).collect::<Vec<usize>>());
    assert_eq!(tab.filter.state, lazytail::tab::FilterState::Inactive);
}

#[test]
fn append_filter_results_keeps_selection() {
    let lines: Vec<&str> = (0..10).map(|_| "line").collect();
    let mut tab = open_tab(&create_temp_log_file(&lines));
    tab.apply_filter(vec![1, 3], "x".to_string());
    let before = tab.selected_line;
    tab.total_lines = 12;
    tab.append_filter_results(vec![10, 11]);
    assert_eq!(tab.line_indices, vec![1, 3, 10, 11]);
    assert_eq!(tab.selected_line, before);
    assert_eq!(tab.filter.state, lazytail::tab::FilterState::Complete { matches: 4 });
    assert_eq!(tab.filter.last_filtered_line, 12);
}

#[test]
fn jump_to_line_zero_is_ignored() {
    let mut tab = open_tab(&create_temp_log_file(&["a", "b", "c"]));
    tab.jump_to_line(0);
    assert_eq!(tab.selected_line, 2);
    tab.jump_to_line(2);
    assert_eq!(tab.selected_line, 1);
}

#[test]
fn view_commands_keep_selection_in_sync() {
    let lines: Vec<&str> = (0..100).map(|_| "line").collect();
    let mut tab = open_tab(&create_temp_log_file(&lines));
    tab.viewport.set_height(20);
    tab.jump_to_start();
    tab.page_down(50);
    assert_eq!(tab.selected_line, 50);
    tab.center_view();
    assert_eq!(tab.selected_line, 50);
    tab.view_to_top();
    // top of the view plus the edge padding
    assert_eq!(tab.selected_line, tab.viewport.scroll_position + 3);
    tab.viewport_down();
    tab.viewport_up();
    assert!(tab.selected_line < tab.visible_line_count());
    tab.view_to_bottom();
    assert_eq!(tab.selected_line, tab.viewport.scroll_position + 20 - 1 - 3);
}

#[test]
fn toggle_twice_restores_expansions() {
    let mut tab = open_tab(&create_temp_log_file(&["a", "b", "c"]));
    tab.jump_to_start();
    tab.toggle_expansion();
    tab.scroll_down();
    tab.toggle_expansion();
    tab.toggle_expansion();
    assert!(tab.is_line_expanded(0));
    assert!(!tab.is_line_expanded(1));
    assert_eq!(tab.expansion.expanded_lines.len(), 1);
}
