use lazytail::viewport::Viewport;


fn make_lines(lines: &[usize]) -> Vec<usize> {
    lines.to_vec()
}

#[test]
fn test_new_viewport() {
    let vp = Viewport::new(100);
    assert_eq!(vp.selected_line(), 100);
}

#[test]
fn test_resolve_basic() {
    let mut vp = Viewport::new(5);
    let lines = make_lines(&[0, 1, 2, 3, 4, 5, 6, 7, 8, 9]);

    let view = vp.resolve(&lines, 5);

    assert_eq!(view.selected_index, 5);
    // With selection at index 5 and height 5, scroll should put selection in comfort zone
}

#[test]
fn test_resolve_line_not_found_finds_nearest() {
    let mut vp = Viewport::new(50);
    let lines = make_lines(&[10, 20, 30, 40, 60, 70]); // 50 not in list

    let view = vp.resolve(&lines, 5);

    // Should find nearest (40 or 60, 40 is closer to 50)
    assert_eq!(vp.selected_line(), 40);
    assert_eq!(view.selected_index, 3);
}

#[test]
fn test_resolve_line_not_found_after_all() {
    let mut vp = Viewport::new(100);
    let lines = make_lines(&[10, 20, 30]);

    let view = vp.resolve(&lines, 5);

    // Should snap to last line
    assert_eq!(vp.selected_line(), 30);
    assert_eq!(view.selected_index, 2);
}

#[test]
fn test_resolve_line_not_found_before_all() {
    let mut vp = Viewport::new(5);
    let lines = make_lines(&[10, 20, 30]);

    let view = vp.resolve(&lines, 5);

    // Should snap to first line
    assert_eq!(vp.selected_line(), 10);
    assert_eq!(view.selected_index, 0);
}

#[test]
fn test_resolve_empty_lines() {
    let mut vp = Viewport::new(5);
    let lines: Vec<usize> = vec![];

    let view = vp.resolve(&lines, 5);

    assert_eq!(view.selected_index, 0);
    assert_eq!(view.scroll_position, 0);
}

#[test]
fn test_move_selection_down() {
    let mut vp = Viewport::new(5);
    let lines = make_lines(&[0, 1, 2, 3, 4, 5, 6, 7, 8, 9]);
    vp.height = 5;

    vp.move_selection(1, &lines);

    assert_eq!(vp.selected_line(), 6);
}

#[test]
fn test_move_selection_up() {
    let mut vp = Viewport::new(5);
    let lines = make_lines(&[0, 1, 2, 3, 4, 5, 6, 7, 8, 9]);
    vp.height = 5;

    vp.move_selection(-1, &lines);

    assert_eq!(vp.selected_line(), 4);
}

#[test]
fn test_move_selection_clamps_at_start() {
    let mut vp = Viewport::new(1);
    let lines = make_lines(&[0, 1, 2, 3, 4]);
    vp.height = 5;

    vp.move_selection(-10, &lines);

    assert_eq!(vp.selected_line(), 0);
}

#[test]
fn test_move_selection_clamps_at_end() {
    let mut vp = Viewport::new(8);
    let lines = make_lines(&[0, 1, 2, 3, 4, 5, 6, 7, 8, 9]);
    vp.height = 5;

    vp.move_selection(10, &lines);

    assert_eq!(vp.selected_line(), 9);
}

#[test]
fn test_vim_like_scrolling_no_scroll_in_middle() {
    // Selection should move within viewport without scrolling
    let mut vp = Viewport::new(0);
    let lines: Vec<usize> = (0..50).collect();
    vp.height = 20;
    vp.scroll_position = 0;

    // Move down within comfort zone - should not scroll
    vp.move_selection(5, &lines);
    assert_eq!(vp.selected_line(), 5);
    assert_eq!(vp.scroll_position, 0); // No scroll yet

    // Move down more but still in comfort zone
    vp.move_selection(5, &lines);
    assert_eq!(vp.selected_line(), 10);
    assert_eq!(vp.scroll_position, 0); // Still no scroll
}

#[test]
fn test_vim_like_scrolling_scroll_at_bottom() {
    // Selection should trigger scroll when hitting bottom edge
    let mut vp = Viewport::new(0);
    let lines: Vec<usize> = (0..50).collect();
    vp.height = 20;
    vp.edge_padding = 3;
    vp.scroll_position = 0;

    // Move to near bottom (height - padding = 17)
    vp.move_selection(17, &lines);
    assert_eq!(vp.selected_line(), 17);
    // Should have scrolled to keep selection in comfort zone
    assert!(vp.scroll_position > 0);
}

#[test]
fn test_jump_to_start() {
    let mut vp = Viewport::new(50);
    let lines = make_lines(&[0, 10, 20, 30, 40, 50, 60, 70, 80, 90]);
    vp.height = 5;

    vp.jump_to_start(&lines);

    assert_eq!(vp.selected_line(), 0);
    assert_eq!(vp.scroll_position, 0);
}

#[test]
fn test_jump_to_end() {
    let mut vp = Viewport::new(0);
    let lines = make_lines(&[0, 10, 20, 30, 40, 50, 60, 70, 80, 90]);
    vp.height = 5;

    vp.jump_to_end(&lines);

    assert_eq!(vp.selected_line(), 90);
    // Scroll should put last line at bottom
    assert_eq!(vp.scroll_position, 5); // 10 lines - 5 height = 5
}

#[test]
fn test_center() {
    let mut vp = Viewport::new(25);
    let lines: Vec<usize> = (0..50).collect();
    vp.height = 10;
    vp.scroll_position = 0;

    vp.center(&lines);

    // Selection at 25 should be centered, so scroll = 25 - 5 = 20
    assert_eq!(vp.scroll_position, 20);
}

#[test]
fn test_scroll_with_selection() {
    let mut vp = Viewport::new(5);
    let lines = make_lines(&[0, 1, 2, 3, 4, 5, 6, 7, 8, 9]);
    vp.height = 5;
    vp.scroll_position = 0;

    vp.scroll_with_selection(3, &lines);

    assert_eq!(vp.selected_line(), 8);
    assert_eq!(vp.scroll_position, 3);
}

#[test]
fn test_filter_preserves_position() {
    // Simulate: user is on line 500, filter shows subset including 500
    let mut vp = Viewport::new(500);
    vp.height = 20;

    // Unfiltered view
    let unfiltered: Vec<usize> = (0..1000).collect();
    let view1 = vp.resolve(&unfiltered, 20);
    assert_eq!(view1.selected_index, 500);

    // Filtered view that includes line 500
    let filtered = make_lines(&[100, 250, 400, 500, 600, 750, 900]);
    let view2 = vp.resolve(&filtered, 20);

    // Line 500 should still be selected
    assert_eq!(vp.selected_line(), 500);
    assert_eq!(view2.selected_index, 3); // Index in filtered list
}

#[test]
fn test_filter_snaps_to_nearest_when_line_removed() {
    let mut vp = Viewport::new(500);
    vp.height = 20;

    // Filtered view that does NOT include line 500
    let filtered = make_lines(&[100, 250, 400, 600, 750, 900]);
    let view = vp.resolve(&filtered, 20);

    // Should snap to nearest (400 or 600)
    assert!(vp.selected_line() == 400 || vp.selected_line() == 600);
    assert!(view.selected_index <= filtered.len());
}

#[test]
fn test_move_viewport_down() {
    let mut vp = Viewport::new(50);
    vp.height = 20;
    vp.scroll_position = 45;
    let lines: Vec<usize> = (0..100).collect();

    vp.move_viewport(2, &lines); // Scroll down 2

    assert_eq!(vp.scroll_position, 47);
    // Selection stays on line 50 (still visible)
    assert_eq!(vp.selected_line(), 50);
}

#[test]
fn test_move_viewport_up() {
    let mut vp = Viewport::new(50);
    vp.height = 20;
    vp.scroll_position = 45;
    let lines: Vec<usize> = (0..100).collect();

    vp.move_viewport(-2, &lines); // Scroll up 2

    assert_eq!(vp.scroll_position, 43);
    assert_eq!(vp.selected_line(), 50);
}
