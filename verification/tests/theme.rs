use lazytail::theme::{parse_color, Color, Palette, Theme};


#[test]
fn test_parse_color_named() {
    assert_eq!(parse_color("red").unwrap(), Color::Red);
    assert_eq!(parse_color("dark_gray").unwrap(), Color::DarkGray);
    assert_eq!(parse_color("light_cyan").unwrap(), Color::LightCyan);
}

#[test]
fn test_parse_color_hex_6digit() {
    assert_eq!(parse_color("#ff5500").unwrap(), Color::Rgb(255, 85, 0));
}

#[test]
fn test_parse_color_hex_3digit() {
    assert_eq!(parse_color("#f50").unwrap(), Color::Rgb(255, 85, 0));
}

#[test]
fn test_parse_color_default() {
    assert_eq!(parse_color("default").unwrap(), Color::Reset);
}

#[test]
fn test_parse_color_invalid() {
    let result = parse_color("not_a_color");
    assert!(result.is_err());
    assert!(result.unwrap_err().contains("unknown color"));
}

#[test]
fn test_parse_color_hex_invalid() {
    let result = parse_color("#xyz");
    assert!(result.is_err());
    assert!(result.unwrap_err().contains("invalid hex color"));
}

#[test]
fn test_dark_palette_derives_expected_ui_colors() {
    let ui = Palette::dark().derive_ui_colors();
    assert_eq!(ui.selection_bg, Color::DarkGray);
    assert_eq!(ui.severity_error, Color::Red);
    assert_eq!(ui.primary, Color::Yellow);
    assert_eq!(ui.accent, Color::Cyan);
    assert_eq!(ui.positive, Color::Green);
    assert_eq!(ui.negative, Color::Red);
    assert_eq!(ui.highlight, Color::Magenta);
    assert_eq!(ui.muted, Color::DarkGray);
}

#[test]
fn test_light_palette_derives_different_from_dark() {
    let dark_ui = Palette::dark().derive_ui_colors();
    let light_ui = Palette::light().derive_ui_colors();
    assert_ne!(dark_ui.fg, light_ui.fg);
    assert_ne!(dark_ui.selection_bg, light_ui.selection_bg);
}

#[test]
fn test_light_theme_uses_light_severity_backgrounds() {
    let theme = Theme::light();
    assert_eq!(theme.ui.expanded_bg, Color::Rgb(230, 230, 240));
    assert_eq!(theme.ui.severity_warn_bg, Color::Rgb(255, 248, 220));
    assert_eq!(theme.ui.severity_error_bg, Color::Rgb(255, 230, 230));
    assert_eq!(theme.ui.severity_fatal_bg, Color::Rgb(255, 220, 235));
    assert_eq!(theme.ui.popup_bg, Color::White);
}

#[test]
fn test_dark_theme_matches_hardcoded_values() {
    let theme = Theme::dark();
    assert_eq!(theme.ui.expanded_bg, Color::Rgb(30, 30, 40));
    assert_eq!(theme.ui.severity_warn_bg, Color::Rgb(50, 40, 0));
    assert_eq!(theme.ui.severity_error_bg, Color::Rgb(55, 10, 10));
    assert_eq!(theme.ui.severity_fatal_bg, Color::Rgb(75, 0, 15));
    assert_eq!(theme.ui.selection_bg, Color::DarkGray);
}

#[test]
fn test_source_colors_default() {
    let theme = Theme::dark();
    assert_eq!(
        theme.ui.source_colors,
        vec![
            Color::Cyan,
            Color::Green,
            Color::Yellow,
            Color::Magenta,
            Color::Blue,
            Color::Red,
            Color::LightCyan,
            Color::LightGreen,
        ]
    );
}

#[test]
fn parse_color_trims_and_ignores_case() {
    assert_eq!(parse_color("  Dark_Grey \n").unwrap(), Color::DarkGray);
    assert_eq!(parse_color("DEFAULT").unwrap(), Color::Reset);
    assert_eq!(parse_color("LightBlue").unwrap(), Color::LightBlue);
    assert_eq!(parse_color("#ABCDEF").unwrap(), Color::Rgb(0xab, 0xcd, 0xef));
}

#[test]
fn parse_color_hex_errors_name_the_code() {
    assert_eq!(parse_color("#12345").unwrap_err(), "invalid hex color: #12345");
    assert_eq!(parse_color("#12g").unwrap_err(), "invalid hex color: #12g");
    // a sign before a digit pair is accepted, as the radix parser does
    assert_eq!(parse_color("#+f0000").unwrap(), Color::Rgb(15, 0, 0));
}

#[test]
fn parse_color_unknown_message_lists_names() {
    let e = parse_color("purple").unwrap_err();
    assert!(e.starts_with("unknown color: 'purple'. Valid names: black, red,"));
    assert!(e.ends_with("default, or hex (#rrggbb / #rgb)"));
}

#[test]
fn light_rgb_background_counts_as_light() {
    let mut p = Palette::dark();
    p.background = Color::Rgb(200, 200, 0);
    assert_eq!(p.derive_ui_colors().popup_bg, p.white);
    p.background = Color::Rgb(128, 128, 128);
    assert_eq!(p.derive_ui_colors().popup_bg, p.black);
}
