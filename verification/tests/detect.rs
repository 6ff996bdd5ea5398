use lazytail::index::flags::{FLAG_FORMAT_JSON, FLAG_FORMAT_LOGFMT};
use lazytail::renderer::builtin::builtin_presets;
use lazytail::renderer::detect::{detect_presets, matches_filename};
use lazytail::renderer::preset::{compile, RawDetect, RawLayoutEntry, RawPreset};


#[test]
fn test_matches_filename_glob_star() {
    assert!(matches_filename("access*.log", "access_2024.log"));
}

#[test]
fn test_matches_filename_exact() {
    assert!(matches_filename("app.log", "app.log"));
}

#[test]
fn test_matches_filename_no_match() {
    assert!(!matches_filename("access*.log", "error.log"));
}

#[test]
fn test_detect_json_by_flags() {
    let presets = builtin_presets();
    let detected = detect_presets(&presets, None, Some(FLAG_FORMAT_JSON));
    assert!(!detected.is_empty());
    assert_eq!(detected[0].name, "json");
}

#[test]
fn test_detect_logfmt_by_flags() {
    let presets = builtin_presets();
    let detected = detect_presets(&presets, None, Some(FLAG_FORMAT_LOGFMT));
    assert!(!detected.is_empty());
    assert_eq!(detected[0].name, "logfmt");
}

#[test]
fn test_detect_filename_priority() {

    let custom = compile(RawPreset {
        name: "custom".to_string(),
        detect: Some(RawDetect {
            parser: None,
            filename: Some("app*.log".to_string()),
        }),
        regex: None,
        layout: vec![RawLayoutEntry {
            field: Some("level".to_string()),
            literal: None,
            style: None,
            width: None,
            format: None,
        }],
    })
    .unwrap();

    let mut presets = builtin_presets();
    presets.insert(0, custom);

    // Filename match should take priority over flag-based detection
    let detected = detect_presets(&presets, Some("app_prod.log"), Some(FLAG_FORMAT_JSON));
    assert_eq!(detected.len(), 1);
    assert_eq!(detected[0].name, "custom");
}

#[test]
fn glob_question_mark_and_stars() {
    assert!(matches_filename("a?c.log", "abc.log"));
    assert!(!matches_filename("a?c.log", "ac.log"));
    assert!(matches_filename("*", ""));
    assert!(matches_filename("*.log", ".log"));
    assert!(matches_filename("a*b*c", "a_x_b_y_c"));
    assert!(!matches_filename("a*b*c", "a_x_c"));
    assert!(matches_filename("日*", "日本.log"));
    assert!(!matches_filename("app.log", "app.log.1"));
}
