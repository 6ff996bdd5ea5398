use lazytail::index::flags::{FLAG_FORMAT_JSON, FLAG_FORMAT_LOGFMT};
use lazytail::renderer::preset::{compile, CompiledPreset, PresetParser, RawDetect, RawLayoutEntry, RawPreset};
use lazytail::renderer::segment::{SegmentColor, SegmentStyle};


fn json_preset() -> CompiledPreset {
    compile(RawPreset {
        name: "test-json".to_string(),
        detect: Some(RawDetect {
            parser: Some("json".to_string()),
            filename: None,
        }),
        regex: None,
        layout: vec![
            RawLayoutEntry {
                field: Some("level".to_string()),
                literal: None,
                style: Some("severity".to_string()),
                width: Some(5),
                format: None,
            },
            RawLayoutEntry {
                field: None,
                literal: Some(" ".to_string()),
                style: None,
                width: None,
                format: None,
            },
            RawLayoutEntry {
                field: Some("message".to_string()),
                literal: None,
                style: None,
                width: None,
                format: None,
            },
            RawLayoutEntry {
                field: None,
                literal: Some(" ".to_string()),
                style: None,
                width: None,
                format: None,
            },
            RawLayoutEntry {
                field: Some("_rest".to_string()),
                literal: None,
                style: Some("dim".to_string()),
                width: None,
                format: None,
            },
        ],
    })
    .unwrap()
}

#[test]
fn test_compile_json_preset() {
    let preset = json_preset();
    assert_eq!(preset.name, "test-json");
    assert_eq!(preset.parser, PresetParser::Json);
    assert!(preset.regex.is_none());
    assert_eq!(preset.layout.len(), 5);
    assert!(preset.consumed_fields.iter().any(|f| f == "level"));
    assert!(preset.consumed_fields.iter().any(|f| f == "message"));
}

#[test]
fn test_compile_regex_preset() {
    let preset = compile(RawPreset {
        name: "test-regex".to_string(),
        detect: None,
        regex: Some(r"(?P<ip>\S+) (?P<method>\S+)".to_string()),
        layout: vec![RawLayoutEntry {
            field: Some("ip".to_string()),
            literal: None,
            style: None,
            width: None,
            format: None,
        }],
    })
    .unwrap();
    assert_eq!(preset.parser, PresetParser::Regex);
    assert!(preset.regex.is_some());
}

#[test]
fn test_compile_invalid_regex() {
    let result = compile(RawPreset {
        name: "bad".to_string(),
        detect: None,
        regex: Some("[invalid".to_string()),
        layout: vec![],
    });
    assert!(result.is_err());
}

#[test]
fn test_render_json_line() {
    let preset = json_preset();
    let segments = preset
        .render(
            r#"{"level":"error","message":"connection failed","service":"api"}"#,
            None,
        )
        .unwrap();

    assert!(segments.len() >= 3);
    assert_eq!(segments[0].text, "error");
    assert_eq!(segments[0].style, SegmentStyle::Fg(SegmentColor::Red));
    assert_eq!(segments[2].text, "connection failed");
}

#[test]
fn test_render_json_line_missing_field() {
    let preset = json_preset();
    // No "message" field — should still render the other fields
    let segments = preset
        .render(r#"{"level":"info","service":"api"}"#, None)
        .unwrap();

    // level + " " + " " + _rest (message is skipped)
    let has_level = segments.iter().any(|s| s.text == "info ");
    assert!(has_level);
}

#[test]
fn test_render_logfmt_line() {
    let preset = compile(RawPreset {
        name: "logfmt".to_string(),
        detect: Some(RawDetect {
            parser: Some("logfmt".to_string()),
            filename: None,
        }),
        regex: None,
        layout: vec![
            RawLayoutEntry {
                field: Some("level".to_string()),
                literal: None,
                style: Some("severity".to_string()),
                width: None,
                format: None,
            },
            RawLayoutEntry {
                field: None,
                literal: Some(" ".to_string()),
                style: None,
                width: None,
                format: None,
            },
            RawLayoutEntry {
                field: Some("msg".to_string()),
                literal: None,
                style: None,
                width: None,
                format: None,
            },
        ],
    })
    .unwrap();

    let segments = preset
        .render("level=error msg=timeout service=api", None)
        .unwrap();
    assert_eq!(segments[0].text, "error");
    assert_eq!(segments[0].style, SegmentStyle::Fg(SegmentColor::Red));
    assert_eq!(segments[2].text, "timeout");
}

#[test]
fn test_render_regex_line() {
    let preset = compile(RawPreset {
        name: "nginx".to_string(),
        detect: None,
        regex: Some(r"(?P<ip>\S+) - - \[(?P<date>[^\]]+)\] (?P<request>.+)".to_string()),
        layout: vec![
            RawLayoutEntry {
                field: Some("ip".to_string()),
                literal: None,
                style: None,
                width: None,
                format: None,
            },
            RawLayoutEntry {
                field: None,
                literal: Some(" ".to_string()),
                style: None,
                width: None,
                format: None,
            },
            RawLayoutEntry {
                field: Some("request".to_string()),
                literal: None,
                style: None,
                width: None,
                format: None,
            },
        ],
    })
    .unwrap();

    let segments = preset
        .render("192.168.1.1 - - [01/Jan/2024] GET /api/v1", None)
        .unwrap();
    assert_eq!(segments[0].text, "192.168.1.1");
    assert_eq!(segments[2].text, "GET /api/v1");
}

#[test]
fn test_render_non_matching_line() {
    let preset = json_preset();
    let result = preset.render("plain text line, not JSON", None);
    assert!(result.is_none());
}

#[test]
fn test_render_rest_field() {
    let preset = json_preset();
    let segments = preset
        .render(
            r#"{"level":"info","message":"ok","service":"api","duration_ms":42}"#,
            None,
        )
        .unwrap();

    let rest_segment = segments.iter().find(|s| s.text.contains("=")).unwrap();
    // Rest should contain the unconsumed fields sorted by key
    assert!(rest_segment.text.contains("duration_ms="));
    assert!(rest_segment.text.contains("service="));
    assert_eq!(rest_segment.style, SegmentStyle::Dim);
}

#[test]
fn test_render_rest_json_format() {
    let preset = compile(RawPreset {
        name: "test".to_string(),
        detect: Some(RawDetect {
            parser: Some("json".to_string()),
            filename: None,
        }),
        regex: None,
        layout: vec![
            RawLayoutEntry {
                field: Some("level".to_string()),
                literal: None,
                style: None,
                width: None,
                format: None,
            },
            RawLayoutEntry {
                field: Some("_rest".to_string()),
                literal: None,
                style: None,
                width: None,
                format: Some("json".to_string()),
            },
        ],
    })
    .unwrap();

    let segments = preset
        .render(r#"{"level":"info","service":"api"}"#, None)
        .unwrap();

    let rest = segments
        .iter()
        .find(|s| s.text.contains("service"))
        .unwrap();
    // Should be JSON format
    assert!(rest.text.contains('{'));
    assert!(rest.text.contains('}'));
}

#[test]
fn test_render_width_truncation() {
    let preset = compile(RawPreset {
        name: "test".to_string(),
        detect: Some(RawDetect {
            parser: Some("json".to_string()),
            filename: None,
        }),
        regex: None,
        layout: vec![RawLayoutEntry {
            field: Some("level".to_string()),
            literal: None,
            style: None,
            width: Some(5),
            format: None,
        }],
    })
    .unwrap();

    let segments = preset.render(r#"{"level":"information"}"#, None).unwrap();
    assert_eq!(segments[0].text, "infor");
}

#[test]
fn test_render_width_padding() {
    let preset = compile(RawPreset {
        name: "test".to_string(),
        detect: Some(RawDetect {
            parser: Some("json".to_string()),
            filename: None,
        }),
        regex: None,
        layout: vec![RawLayoutEntry {
            field: Some("level".to_string()),
            literal: None,
            style: None,
            width: Some(5),
            format: None,
        }],
    })
    .unwrap();

    let segments = preset.render(r#"{"level":"err"}"#, None).unwrap();
    assert_eq!(segments[0].text, "err  ");
}

#[test]
fn test_index_filter_json() {
    let preset = json_preset();
    let (mask, want) = preset.index_filter().unwrap();
    assert_eq!(mask, FLAG_FORMAT_JSON);
    assert_eq!(want, FLAG_FORMAT_JSON);
}

#[test]
fn test_index_filter_regex() {
    let preset = compile(RawPreset {
        name: "test".to_string(),
        detect: None,
        regex: Some(r"(?P<ip>\S+)".to_string()),
        layout: vec![],
    })
    .unwrap();
    assert!(preset.index_filter().is_none());
}

#[test]
fn test_early_reject() {
    let preset = json_preset();
    // Logfmt flag, no JSON flag → should be rejected without parsing
    let result = preset.render(
        r#"{"level":"error","message":"fail"}"#,
        Some(FLAG_FORMAT_LOGFMT),
    );
    assert!(result.is_none());
}
