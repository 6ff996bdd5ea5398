use lazytail::ansi::strip_ansi;
use lazytail::renderer::segment::{
    resolve_severity_style, resolve_status_code_style, segment_color_to_ratatui, segments_to_ansi,
    segments_to_plain_text, to_ratatui_style, SegmentColor, SegmentStyle, StyledSegment,
};
use lazytail::theme::{Color, Palette};

#[test]
fn test_resolve_severity_error() {
    assert_eq!(
        resolve_severity_style("error"),
        SegmentStyle::Fg(SegmentColor::Red)
    );
}

#[test]
fn test_resolve_severity_case_insensitive() {
    assert_eq!(
        resolve_severity_style("ERROR"),
        resolve_severity_style("error")
    );
}

#[test]
fn test_resolve_severity_unknown() {
    assert_eq!(
        resolve_severity_style("unknown_value"),
        SegmentStyle::Default
    );
}

#[test]
fn test_resolve_status_code_2xx() {
    assert_eq!(
        resolve_status_code_style("200"),
        SegmentStyle::Fg(SegmentColor::Green)
    );
}

#[test]
fn test_resolve_status_code_5xx() {
    assert_eq!(
        resolve_status_code_style("503"),
        SegmentStyle::Fg(SegmentColor::Red)
    );
}

#[test]
fn test_segments_to_plain_text() {
    let segments = vec![
        StyledSegment {
            text: "ERROR".to_string(),
            style: SegmentStyle::Fg(SegmentColor::Red),
        },
        StyledSegment {
            text: " ".to_string(),
            style: SegmentStyle::Default,
        },
        StyledSegment {
            text: "something failed".to_string(),
            style: SegmentStyle::Dim,
        },
    ];
    assert_eq!(segments_to_plain_text(&segments), "ERROR something failed");
}

#[test]
fn test_segments_to_plain_text_empty() {
    assert_eq!(segments_to_plain_text(&[]), "");
}

#[test]
fn severity_aliases_and_mixed_case() {
    assert_eq!(resolve_severity_style("Fatal"), SegmentStyle::Fg(SegmentColor::Red));
    assert_eq!(resolve_severity_style("WARNING"), SegmentStyle::Fg(SegmentColor::Yellow));
    assert_eq!(resolve_severity_style("Info"), SegmentStyle::Fg(SegmentColor::Green));
    assert_eq!(resolve_severity_style("debug"), SegmentStyle::Fg(SegmentColor::Cyan));
    assert_eq!(resolve_severity_style("TRACE"), SegmentStyle::Fg(SegmentColor::Gray));
    assert_eq!(resolve_severity_style("errors"), SegmentStyle::Default);
}

#[test]
fn status_code_classes() {
    assert_eq!(resolve_status_code_style("301"), SegmentStyle::Fg(SegmentColor::Cyan));
    assert_eq!(resolve_status_code_style("404"), SegmentStyle::Fg(SegmentColor::Yellow));
    assert_eq!(resolve_status_code_style("100"), SegmentStyle::Default);
    assert_eq!(resolve_status_code_style(""), SegmentStyle::Default);
}

#[test]
fn test_to_ratatui_style_dim() {
    let style = to_ratatui_style(&SegmentStyle::Dim, None);
    assert!(style.dim);
}
#[test]
fn test_to_ratatui_style_bold() {
    let style = to_ratatui_style(&SegmentStyle::Bold, None);
    assert!(style.bold);
}
#[test]
fn test_to_ratatui_style_compound() {
    let style = to_ratatui_style(
        &SegmentStyle::Compound {
            dim: true,
            bold: true,
            italic: false,
            fg: Some(SegmentColor::Cyan),
        },
        None,
    );
    assert!(style.dim);
    assert!(style.bold);
    assert!(!style.italic);
    assert_eq!(style.fg, Some(Color::Cyan));
}
#[test]
fn test_to_ratatui_style_compound_no_fg() {
    let style = to_ratatui_style(
        &SegmentStyle::Compound {
            dim: false,
            bold: true,
            italic: false,
            fg: None,
        },
        None,
    );
    assert!(style.bold);
    assert!(style.fg.is_none());
}
#[test]
fn test_segments_to_ansi_basic() {
    let segments = vec![
        StyledSegment {
            text: "ERROR".to_string(),
            style: SegmentStyle::Fg(SegmentColor::Red),
        },
        StyledSegment {
            text: " msg".to_string(),
            style: SegmentStyle::Default,
        },
    ];
    let ansi = segments_to_ansi(&segments, None);
    assert_eq!(ansi, "\x1b[31mERROR\x1b[0m msg");
}
#[test]
fn test_segments_to_ansi_dim() {
    let segments = vec![StyledSegment {
        text: "dim text".to_string(),
        style: SegmentStyle::Dim,
    }];
    let ansi = segments_to_ansi(&segments, None);
    assert!(ansi.contains("\x1b[2m"));
}
#[test]
fn test_segments_to_ansi_compound() {
    let segments = vec![StyledSegment {
        text: "bold cyan".to_string(),
        style: SegmentStyle::Compound {
            dim: false,
            bold: true,
            italic: false,
            fg: Some(SegmentColor::Cyan),
        },
    }];
    let ansi = segments_to_ansi(&segments, None);
    assert!(ansi.contains("\x1b[1;36m"));
}
#[test]
fn test_segments_to_ansi_empty() {
    assert_eq!(segments_to_ansi(&[], None), "");
}
#[test]
fn test_segments_to_ansi_palette_with_palette() {
    let palette = Palette::dark();
    let segments = vec![StyledSegment {
        text: "colored".to_string(),
        style: SegmentStyle::Fg(SegmentColor::Palette("red".to_string())),
    }];
    let ansi = segments_to_ansi(&segments, Some(&palette));
    // dark palette red is Color::Red → ANSI code 31
    assert!(ansi.contains("\x1b[31m"));
}
#[test]
fn test_segments_to_ansi_palette_without_palette() {
    let segments = vec![StyledSegment {
        text: "colored".to_string(),
        style: SegmentStyle::Fg(SegmentColor::Palette("red".to_string())),
    }];
    let ansi = segments_to_ansi(&segments, None);
    // No palette → empty color code, but still has escape sequence wrapper
    assert!(ansi.contains("\x1b[m"));
}
#[test]
fn test_segment_color_to_ratatui_with_palette() {
    let mut palette = Palette::dark();
    palette.red = Color::Rgb(255, 0, 0);
    let color = segment_color_to_ratatui(&SegmentColor::Red, Some(&palette));
    assert_eq!(color, Color::Rgb(255, 0, 0));
}
#[test]
fn test_segment_color_to_ratatui_without_palette() {
    let color = segment_color_to_ratatui(&SegmentColor::Red, None);
    assert_eq!(color, Color::Red);
}
#[test]
fn test_segment_color_palette_variant_ratatui() {
    let palette = Palette::dark();
    let color = segment_color_to_ratatui(
        &SegmentColor::Palette("foreground".to_string()),
        Some(&palette),
    );
    assert_eq!(color, palette.foreground);
}
#[test]
fn test_segment_color_palette_unknown_ratatui() {
    let palette = Palette::dark();
    let color = segment_color_to_ratatui(
        &SegmentColor::Palette("nonexistent".to_string()),
        Some(&palette),
    );
    assert_eq!(color, Color::Reset);
}

#[test]
fn segments_to_ansi_rgb_palette_color() {
    let mut palette = Palette::dark();
    palette.foreground = Color::Rgb(1, 22, 255);
    let segments = vec![StyledSegment {
        text: "x".to_string(),
        style: SegmentStyle::Compound {
            dim: true,
            bold: false,
            italic: true,
            fg: Some(SegmentColor::Palette("foreground".to_string())),
        },
    }];
    assert_eq!(segments_to_ansi(&segments, Some(&palette)), "\x1b[2;3;38;2;1;22;255mx\x1b[0m");
}

#[test]
fn gray_resolves_through_bright_black() {
    let palette = Palette::dark();
    assert_eq!(segment_color_to_ratatui(&SegmentColor::Gray, Some(&palette)), Color::DarkGray);
    assert_eq!(segment_color_to_ratatui(&SegmentColor::Gray, None), Color::Gray);
}

#[test]
fn stripping_rendered_segments_gives_plain_text() {
    let segments = vec![
        StyledSegment { text: "12:00:01 ".to_string(), style: SegmentStyle::Dim },
        StyledSegment {
            text: "WARN".to_string(),
            style: SegmentStyle::Compound {
                dim: false,
                bold: true,
                italic: true,
                fg: Some(SegmentColor::Palette("yellow".to_string())),
            },
        },
        StyledSegment { text: " disk at 91%".to_string(), style: SegmentStyle::Default },
        StyledSegment { text: " [x]".to_string(), style: SegmentStyle::Fg(SegmentColor::Cyan) },
    ];
    let palette = Palette::dark();
    let rendered = segments_to_ansi(&segments, Some(&palette));
    assert_ne!(rendered, segments_to_plain_text(&segments));
    assert_eq!(strip_ansi(&rendered), segments_to_plain_text(&segments));
    assert_eq!(strip_ansi(&segments_to_ansi(&segments, None)), "12:00:01 WARN disk at 91% [x]");
}
