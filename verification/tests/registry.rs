use lazytail::index::flags::FLAG_FORMAT_JSON;
use lazytail::renderer::preset::{compile, RawDetect, RawLayoutEntry, RawPreset};
use lazytail::renderer::PresetRegistry;


#[test]
fn test_registry_get_by_name() {
    let registry = PresetRegistry::new(Vec::new());
    let json = registry.get_by_name("json");
    assert!(json.is_some());
    assert_eq!(json.unwrap().name, "json");
}

#[test]
fn test_registry_render_line_json() {
    let registry = PresetRegistry::new(Vec::new());
    let result = registry.render_line(
        r#"{"level":"error","message":"fail"}"#,
        &["json".to_string()],
        None,
    );
    assert!(result.is_some());
}

#[test]
fn test_registry_render_line_chain_fallthrough() {

    // A custom preset that only matches logfmt
    let custom = compile(RawPreset {
        name: "custom-logfmt".to_string(),
        detect: Some(RawDetect {
            parser: Some("logfmt".to_string()),
            filename: None,
        }),
        regex: None,
        layout: vec![RawLayoutEntry {
            field: Some("level".to_string()),
            literal: None,
            style: None,
            width: None,
            format: None,
        }],
    })
    .unwrap();

    let registry = PresetRegistry::new(vec![custom]);

    // JSON line — custom-logfmt returns None, "json" should match
    let result = registry.render_line(
        r#"{"level":"error","message":"fail"}"#,
        &["custom-logfmt".to_string(), "json".to_string()],
        None,
    );
    assert!(result.is_some());
}

#[test]
fn test_registry_render_line_no_match() {
    let registry = PresetRegistry::new(Vec::new());
    let result = registry.render_line("plain text line", &["json".to_string()], None);
    assert!(result.is_none());
}

#[test]
fn test_registry_auto_detect_json() {
    let registry = PresetRegistry::new(Vec::new());
    let result = registry.render_line_auto(
        r#"{"level":"error","message":"fail"}"#,
        None,
        Some(FLAG_FORMAT_JSON),
    );
    assert!(result.is_some());
}

#[test]
fn test_user_preset_shadows_builtin() {

    // User preset with same name "json" but different layout
    let user_json = compile(RawPreset {
        name: "json".to_string(),
        detect: Some(RawDetect {
            parser: Some("json".to_string()),
            filename: None,
        }),
        regex: None,
        layout: vec![RawLayoutEntry {
            field: Some("level".to_string()),
            literal: None,
            style: None,
            width: None,
            format: None,
        }],
    })
    .unwrap();

    let registry = PresetRegistry::new(vec![user_json]);

    // Should use user's "json" (1 layout entry) not builtin (many entries)
    let result = registry.render_line(
        r#"{"level":"error","message":"fail"}"#,
        &["json".to_string()],
        None,
    );
    let segments = result.unwrap();
    // User preset only has level field → exactly 1 segment
    assert_eq!(segments.len(), 1);
    assert_eq!(segments[0].text, "error");
}
