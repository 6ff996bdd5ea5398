use lazytail::parsing::{extract_json_field, parse_logfmt, FieldMap, JsonValue};

#[test]
fn logfmt_plain_and_quoted_values() {
    let m = parse_logfmt(r#"level=info msg="hello \"world\"" path=/a\tb empty="#);
    assert_eq!(m.get("level"), Some("info".to_string()));
    assert_eq!(m.get("msg"), Some("hello \"world\"".to_string()));
    assert_eq!(m.get("path"), Some("/a\\tb".to_string()));
    assert_eq!(m.get("empty"), Some(String::new()));
    assert_eq!(m.len(), 4);
}

#[test]
fn logfmt_escapes_in_quotes() {
    let m = parse_logfmt(r#"a="x\ny" b="tab\there" c="back\\slash""#);
    assert_eq!(m.get("a"), Some("x\ny".to_string()));
    assert_eq!(m.get("b"), Some("tab\there".to_string()));
    assert_eq!(m.get("c"), Some("back\\slash".to_string()));
}

#[test]
fn logfmt_keys_without_values_and_stops() {
    let m = parse_logfmt("flag k=v");
    assert_eq!(m.get("flag"), None);
    assert_eq!(m.get("k"), Some("v".to_string()));
    // an empty key (a leading '=') ends the parse
    let m = parse_logfmt("a=1 =x b=2");
    assert_eq!(m.get("a"), Some("1".to_string()));
    assert_eq!(m.get("b"), None);
    // later assignments overwrite earlier ones
    let m = parse_logfmt("k=1 k=2");
    assert_eq!(m.get("k"), Some("2".to_string()));
    assert_eq!(m.len(), 1);
    // an unterminated quote takes the rest of the line
    let m = parse_logfmt(r#"k="open value"#);
    assert_eq!(m.get("k"), Some("open value".to_string()));
    assert!(parse_logfmt("   ").is_empty());
}

#[test]
fn field_map_insert_and_get() {
    let mut m = FieldMap::new();
    assert!(m.is_empty());
    m.insert("a".to_string(), "1".to_string());
    m.insert("b".to_string(), "2".to_string());
    m.insert("a".to_string(), "3".to_string());
    assert_eq!(m.len(), 2);
    assert_eq!(m.get("a"), Some("3".to_string()));
    assert_eq!(m.pairs()[0], ("a".to_string(), "3".to_string()));
}

#[test]
fn json_field_paths() {
    let inner = JsonValue::Object(
        vec![("id".to_string(), JsonValue::Str("123".to_string()))],
        "{\"id\":\"123\"}".to_string(),
    );
    let arr = JsonValue::Array(
        vec![JsonValue::Number("7".to_string()), JsonValue::Bool(false)],
        "[7,false]".to_string(),
    );
    let root = JsonValue::Object(
        vec![
            ("user".to_string(), inner),
            ("list".to_string(), arr),
            ("none".to_string(), JsonValue::Null),
        ],
        "{...}".to_string(),
    );
    assert_eq!(extract_json_field(&root, "user.id"), Some("123".to_string()));
    assert_eq!(extract_json_field(&root, "user"), Some("{\"id\":\"123\"}".to_string()));
    assert_eq!(extract_json_field(&root, "list.0"), Some("7".to_string()));
    assert_eq!(extract_json_field(&root, "list.+1"), Some("false".to_string()));
    assert_eq!(extract_json_field(&root, "list.2"), None);
    assert_eq!(extract_json_field(&root, "none"), Some("null".to_string()));
    assert_eq!(extract_json_field(&root, "user.id.x"), None);
    assert_eq!(extract_json_field(&root, ""), None);
}
