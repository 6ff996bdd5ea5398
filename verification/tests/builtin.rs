use lazytail::renderer::builtin::builtin_presets;


#[test]
fn test_builtin_json_preset_renders() {
    let presets = builtin_presets();
    let json_preset = presets.iter().find(|p| p.name == "json").unwrap();
    let segments = json_preset
        .render(
            r#"{"timestamp":"2024-01-01T00:00:00Z","level":"error","message":"fail","service":"api"}"#,
            None,
        )
        .unwrap();
    assert!(!segments.is_empty());
    // Should contain "error" as severity-styled
    let level_seg = segments
        .iter()
        .find(|s| s.text.starts_with("error"))
        .unwrap();
    assert_eq!(
        level_seg.style,
        lazytail::renderer::segment::SegmentStyle::Fg(lazytail::renderer::segment::SegmentColor::Red)
    );
}

#[test]
fn test_builtin_logfmt_preset_renders() {
    let presets = builtin_presets();
    let logfmt_preset = presets.iter().find(|p| p.name == "logfmt").unwrap();
    let segments = logfmt_preset
        .render("ts=2024-01-01 level=warn msg=slow service=db", None)
        .unwrap();
    assert!(!segments.is_empty());
    let level_seg = segments
        .iter()
        .find(|s| s.text.starts_with("warn"))
        .unwrap();
    assert_eq!(
        level_seg.style,
        lazytail::renderer::segment::SegmentStyle::Fg(
            lazytail::renderer::segment::SegmentColor::Yellow
        )
    );
}

#[test]
fn test_builtin_json_rejects_plain_text() {
    let presets = builtin_presets();
    let json_preset = presets.iter().find(|p| p.name == "json").unwrap();
    let result = json_preset.render("just a plain text line", None);
    assert!(result.is_none());
}
