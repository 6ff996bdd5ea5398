use lazytail::theme::loader::resolve_theme;
use lazytail::theme::{Color, RawPalette, RawThemeConfig, RawUiColors, Theme, ThemeColor};


#[test]
fn test_resolve_none_returns_dark() {
    let theme = resolve_theme(&None, &[], None).unwrap();
    assert_eq!(theme, Theme::dark());
}

#[test]
fn test_resolve_dark_string() {
    let raw = Some(RawThemeConfig::Named("dark".into()));
    let theme = resolve_theme(&raw, &[], None).unwrap();
    assert_eq!(theme, Theme::dark());
}

#[test]
fn test_resolve_light_string() {
    let raw = Some(RawThemeConfig::Named("light".into()));
    let theme = resolve_theme(&raw, &[], None).unwrap();
    assert_eq!(theme, Theme::light());
}

#[test]
fn test_resolve_unknown_name_error() {
    let raw = Some(RawThemeConfig::Named("draclua".into()));
    let result = resolve_theme(&raw, &[], None);
    assert!(result.is_err());
    let err = result.unwrap_err();
    assert!(err.contains("unknown theme"));
    assert!(err.contains("dark"));
    assert!(err.contains("light"));
}

#[test]
fn test_resolve_custom_palette_override() {
    let raw = Some(RawThemeConfig::Custom {
        base: Some("dark".into()),
        palette: Some(RawPalette {
            red: Some(ThemeColor(Color::Rgb(255, 0, 0))),
            ..Default::default()
        }),
        ui: None,
    });
    let theme = resolve_theme(&raw, &[], None).unwrap();
    assert_eq!(theme.palette.red, Color::Rgb(255, 0, 0));
    // Re-derived: severity_error should use the overridden red
    assert_eq!(theme.ui.severity_error, Color::Rgb(255, 0, 0));
}

#[test]
fn test_resolve_custom_ui_override() {
    let raw = Some(RawThemeConfig::Custom {
        base: Some("dark".into()),
        palette: None,
        ui: Some(RawUiColors {
            primary: Some(ThemeColor(Color::Cyan)),
            ..Default::default()
        }),
    });
    let theme = resolve_theme(&raw, &[], None).unwrap();
    assert_eq!(theme.ui.primary, Color::Cyan);
    // Rest should be dark defaults
    assert_eq!(theme.ui.accent, Theme::dark().ui.accent);
}

#[test]
fn test_resolve_palette_override_then_ui_override() {
    let raw = Some(RawThemeConfig::Custom {
        base: Some("dark".into()),
        palette: Some(RawPalette {
            red: Some(ThemeColor(Color::Rgb(200, 50, 50))),
            ..Default::default()
        }),
        ui: Some(RawUiColors {
            severity_error: Some(ThemeColor(Color::Rgb(255, 0, 0))),
            ..Default::default()
        }),
    });
    let theme = resolve_theme(&raw, &[], None).unwrap();
    // Palette red was overridden
    assert_eq!(theme.palette.red, Color::Rgb(200, 50, 50));
    // severity_error: the explicit UI override takes precedence over the derived one
    assert_eq!(theme.ui.severity_error, Color::Rgb(255, 0, 0));
    // negative was derived from palette red (no explicit override)
    assert_eq!(theme.ui.negative, Color::Rgb(200, 50, 50));
}

#[test]
fn unknown_theme_message_with_suggestion() {
    let raw = Some(RawThemeConfig::Named("drak".into()));
    let err = resolve_theme(&raw, &[], Some("dark")).unwrap_err();
    assert_eq!(err, "unknown theme 'drak'. Available themes: dark, light. Did you mean 'dark'?");
    let raw = Some(RawThemeConfig::Custom { base: Some("nope".into()), palette: None, ui: None });
    let err = resolve_theme(&raw, &[], None).unwrap_err();
    assert_eq!(err, "unknown theme 'nope'. Available themes: dark, light");
}

#[test]
fn empty_source_color_list_keeps_defaults() {
    let raw = Some(RawThemeConfig::Custom {
        base: None,
        palette: None,
        ui: Some(RawUiColors { source_colors: Some(vec![]), ..Default::default() }),
    });
    let theme = resolve_theme(&raw, &[], None).unwrap();
    assert_eq!(theme.ui.source_colors, Theme::dark().ui.source_colors);
    let raw = Some(RawThemeConfig::Custom {
        base: Some("light".into()),
        palette: None,
        ui: Some(RawUiColors { source_colors: Some(vec![ThemeColor(Color::Red)]), ..Default::default() }),
    });
    let theme = resolve_theme(&raw, &[], None).unwrap();
    assert_eq!(theme.ui.source_colors, vec![Color::Red]);
    assert_eq!(theme.palette, Theme::light().palette);
}
