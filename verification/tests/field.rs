use lazytail::index::flags::{FLAG_FORMAT_JSON, FLAG_FORMAT_LOGFMT};
use lazytail::renderer::field::{extract_fields, get_field, get_rest_fields};
use lazytail::renderer::preset::PresetParser;
use lazytail::renderer::pattern::PatternRegex;


#[test]
fn test_extract_json_fields() {
    let source = extract_fields(
        r#"{"level":"error","message":"fail"}"#,
        &PresetParser::Json,
        None,
        None,
    )
    .unwrap();
    assert_eq!(get_field(&source, "level"), Some("error".to_string()));
    assert_eq!(get_field(&source, "message"), Some("fail".to_string()));
}

#[test]
fn test_extract_json_nested_field() {
    let source = extract_fields(
        r#"{"user":{"id":"123"},"level":"info"}"#,
        &PresetParser::Json,
        None,
        None,
    )
    .unwrap();
    assert_eq!(get_field(&source, "user.id"), Some("123".to_string()));
}

#[test]
fn test_extract_logfmt_fields() {
    let source = extract_fields(
        "level=error msg=fail service=api",
        &PresetParser::Logfmt,
        None,
        None,
    )
    .unwrap();
    assert_eq!(get_field(&source, "level"), Some("error".to_string()));
    assert_eq!(get_field(&source, "msg"), Some("fail".to_string()));
}

#[test]
fn test_extract_regex_fields() {
    let re = PatternRegex::compile(r"(?P<ip>\S+) - - \[(?P<date>[^\]]+)\]").unwrap();
    let source = extract_fields(
        "192.168.1.1 - - [01/Jan/2024] GET /",
        &PresetParser::Regex,
        Some(&re),
        None,
    )
    .unwrap();
    assert_eq!(get_field(&source, "ip"), Some("192.168.1.1".to_string()));
    assert_eq!(get_field(&source, "date"), Some("01/Jan/2024".to_string()));
}

#[test]
fn test_extract_auto_json() {
    let source = extract_fields(
        r#"{"level":"info"}"#,
        &PresetParser::Auto,
        None,
        Some(FLAG_FORMAT_JSON),
    )
    .unwrap();
    assert_eq!(get_field(&source, "level"), Some("info".to_string()));
}

#[test]
fn test_extract_auto_logfmt() {
    let source = extract_fields(
        "level=info msg=hello",
        &PresetParser::Auto,
        None,
        Some(FLAG_FORMAT_LOGFMT),
    )
    .unwrap();
    assert_eq!(get_field(&source, "level"), Some("info".to_string()));
}

#[test]
fn test_extract_auto_neither_flag() {
    let source = extract_fields("plain text line", &PresetParser::Auto, None, Some(0));
    assert!(source.is_none());
}

#[test]
fn test_get_rest_fields() {
    let source = extract_fields(
        r#"{"level":"error","message":"fail","service":"api"}"#,
        &PresetParser::Json,
        None,
        None,
    )
    .unwrap();
    let consumed: Vec<String> = vec!["level".to_string(), "message".to_string()];
    let rest = get_rest_fields(&source, &consumed);
    assert_eq!(rest, vec![("service".to_string(), "api".to_string())]);
}

#[test]
fn test_get_rest_empty() {
    let source = extract_fields(
        r#"{"level":"error","message":"fail"}"#,
        &PresetParser::Json,
        None,
        None,
    )
    .unwrap();
    let consumed: Vec<String> = vec!["level".to_string(), "message".to_string()];
    let rest = get_rest_fields(&source, &consumed);
    assert!(rest.is_empty());
}

#[test]
fn rest_fields_are_sorted_and_values_keep_json_text() {
    let source = extract_fields(
        r#"{"zeta":1,"alpha":[1,2],"mid":{"a":true},"s":"x","n":null}"#,
        &PresetParser::Json,
        None,
        None,
    )
    .unwrap();
    let rest = get_rest_fields(&source, &vec!["s".to_string()]);
    assert_eq!(
        rest,
        vec![
            ("alpha".to_string(), "[1,2]".to_string()),
            ("mid".to_string(), "{\"a\":true}".to_string()),
            ("n".to_string(), "null".to_string()),
            ("zeta".to_string(), "1".to_string()),
        ]
    );
    assert_eq!(get_field(&source, "alpha.1"), Some("2".to_string()));
    assert_eq!(get_field(&source, "alpha.x"), None);
    assert_eq!(get_field(&source, "mid.a"), Some("true".to_string()));
    assert_eq!(get_field(&source, "missing"), None);
}

#[test]
fn json_parser_needs_an_object() {
    assert!(extract_fields("[1,2]", &PresetParser::Json, None, None).is_none());
    assert!(extract_fields("not json", &PresetParser::Json, None, None).is_none());
    assert!(extract_fields("k=v", &PresetParser::Auto, None, None).is_some());
    assert!(extract_fields("k=v", &PresetParser::Regex, None, None).is_none());
}
