use lazytail::mcp::ansi::strip_ansi;


#[test]
fn plain_text_passthrough() {
    assert_eq!(strip_ansi("hello world"), "hello world");
}

#[test]
fn empty_string() {
    assert_eq!(strip_ansi(""), "");
}

#[test]
fn sgr_colors() {
    // Red text
    assert_eq!(strip_ansi("\x1b[31mhello\x1b[0m"), "hello");
    // Green background
    assert_eq!(strip_ansi("\x1b[42mworld\x1b[0m"), "world");
}

#[test]
fn color_256() {
    assert_eq!(strip_ansi("\x1b[38;5;196mred\x1b[0m"), "red");
}

#[test]
fn truecolor_rgb() {
    assert_eq!(strip_ansi("\x1b[38;2;255;0;0mred\x1b[0m"), "red");
}

#[test]
fn bold_and_reset() {
    assert_eq!(strip_ansi("\x1b[1mbold\x1b[0m plain"), "bold plain");
}

#[test]
fn cursor_movement() {
    // Move cursor up 2 lines
    assert_eq!(strip_ansi("\x1b[2Ahello"), "hello");
    // Move cursor to column 10
    assert_eq!(strip_ansi("\x1b[10Gworld"), "world");
    // Erase line
    assert_eq!(strip_ansi("\x1b[2Ktext"), "text");
}

#[test]
fn osc_hyperlinks() {
    // OSC 8 hyperlink with BEL terminator
    assert_eq!(
        strip_ansi("\x1b]8;;https://example.com\x07link\x1b]8;;\x07"),
        "link"
    );
    // OSC 8 hyperlink with ST terminator (ESC \)
    assert_eq!(
        strip_ansi("\x1b]8;;https://example.com\x1b\\link\x1b]8;;\x1b\\"),
        "link"
    );
}

#[test]
fn mixed_content() {
    let input = "\x1b[1;32m[INFO]\x1b[0m \x1b[36m2024-01-01\x1b[0m Server started on port \x1b[33m8080\x1b[0m";
    assert_eq!(
        strip_ansi(input),
        "[INFO] 2024-01-01 Server started on port 8080"
    );
}

#[test]
fn character_set_designators() {
    assert_eq!(strip_ansi("\x1b(Bhello\x1b)0"), "hello");
}

#[test]
fn multiple_sequences_adjacent() {
    assert_eq!(strip_ansi("\x1b[1m\x1b[31m\x1b[42mtext\x1b[0m"), "text");
}

#[test]
fn unterminated_sequences_drop_the_rest() {
    assert_eq!(strip_ansi("ok\x1b[31"), "ok");
    assert_eq!(strip_ansi("ok\x1b]8;;link"), "ok");
    assert_eq!(strip_ansi("ok\x1b"), "ok");
}

#[test]
fn two_character_escapes_and_unicode() {
    assert_eq!(strip_ansi("a\x1b7b\x1bMc"), "abc");
    assert_eq!(strip_ansi("\x1b[1mé→\x1b[0m"), "é→");
}

#[test]
fn stripping_twice_changes_nothing() {
    let input = "\x1b[1;31mERR\x1b[0m \x1b]8;;http://x\x07link\x1b]8;;\x07 \x1b(B done\x1b";
    let once = strip_ansi(input);
    assert!(!once.contains('\x1b'));
    assert_eq!(strip_ansi(&once), once);
}
