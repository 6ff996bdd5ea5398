use lazytail::renderer::format::{
    epoch_secs_to_components, format_datetime, format_datetime_at, parse_iso8601, DateTimeMode, DurationUnit,
    FieldFormat,
};
use std::time::{SystemTime, UNIX_EPOCH};

#[test]
fn test_format_datetime_absolute() {
    let result = format_datetime("2024-01-15T10:30:00Z", &DateTimeMode::Absolute);
    assert_eq!(result, Some("2024-01-15 10:30:00".to_string()));
}

#[test]
fn test_format_datetime_invalid() {
    assert_eq!(format_datetime("not a date", &DateTimeMode::Relative), None);
    assert_eq!(format_datetime("", &DateTimeMode::Relative), None);
    assert_eq!(format_datetime("2024", &DateTimeMode::Relative), None);
}

#[test]
fn test_format_datetime_relative() {
    // Use a timestamp close to now to test relative formatting
    let now = SystemTime::now()
        .duration_since(UNIX_EPOCH)
        .unwrap()
        .as_secs();
    let five_min_ago = now - 300;
    let (y, mo, d, h, mi, s) = epoch_secs_to_components(five_min_ago as i64);
    let ts = format!("{:04}-{:02}-{:02}T{:02}:{:02}:{:02}Z", y, mo, d, h, mi, s);
    let result = format_datetime(&ts, &DateTimeMode::Relative).unwrap();
    assert!(
        result.contains("m ago"),
        "expected 'm ago', got: {}",
        result
    );
}

#[test]
fn test_parse_iso8601_with_timezone() {
    let utc = parse_iso8601("2024-01-15T10:30:00Z").unwrap();
    let plus5 = parse_iso8601("2024-01-15T15:30:00+05:00").unwrap();
    assert_eq!(utc, plus5);
}

#[test]
fn test_parse_iso8601_with_fractional() {
    let without = parse_iso8601("2024-01-15T10:30:00Z").unwrap();
    let with_frac = parse_iso8601("2024-01-15T10:30:00.123Z").unwrap();
    assert_eq!(without, with_frac);
}

#[test]
fn test_parse_iso8601_space_separator() {
    let t_sep = parse_iso8601("2024-01-15T10:30:00Z").unwrap();
    let space = parse_iso8601("2024-01-15 10:30:00").unwrap();
    assert_eq!(t_sep, space);
}

#[test]
fn test_field_format_parse() {
    assert_eq!(
        FieldFormat::parse("datetime"),
        Some(FieldFormat::DateTime(DateTimeMode::Relative))
    );
    assert_eq!(
        FieldFormat::parse("datetime:relative"),
        Some(FieldFormat::DateTime(DateTimeMode::Relative))
    );
    assert_eq!(
        FieldFormat::parse("datetime:absolute"),
        Some(FieldFormat::DateTime(DateTimeMode::Absolute))
    );
    assert_eq!(
        FieldFormat::parse("duration"),
        Some(FieldFormat::Duration(DurationUnit::Milliseconds))
    );
    assert_eq!(
        FieldFormat::parse("duration:ms"),
        Some(FieldFormat::Duration(DurationUnit::Milliseconds))
    );
    assert_eq!(
        FieldFormat::parse("duration:ns"),
        Some(FieldFormat::Duration(DurationUnit::Nanoseconds))
    );
    assert_eq!(FieldFormat::parse("bytes"), Some(FieldFormat::Bytes));
    assert_eq!(FieldFormat::parse("json"), None);
    assert_eq!(FieldFormat::parse("unknown"), None);
}

#[test]
fn format_datetime_at_fixed_clock() {
    // 2024-01-15T10:30:00Z is 1705314600
    let t = "2024-01-15T10:30:00Z";
    assert_eq!(format_datetime_at(t, &DateTimeMode::Relative, 1705314600 + 30), Some("30s ago".to_string()));
    assert_eq!(format_datetime_at(t, &DateTimeMode::Relative, 1705314600 + 125), Some("2m ago".to_string()));
    assert_eq!(format_datetime_at(t, &DateTimeMode::Relative, 1705314600 + 7200), Some("2h ago".to_string()));
    assert_eq!(format_datetime_at(t, &DateTimeMode::Relative, 1705314600 + 3 * 86400), Some("3d ago".to_string()));
    assert_eq!(format_datetime_at(t, &DateTimeMode::Relative, 1705314600 - 5), Some("in 5s".to_string()));
    assert_eq!(format_datetime_at("bad", &DateTimeMode::Absolute, 0), None);
}

#[test]
fn parse_iso8601_exact_values() {
    assert_eq!(parse_iso8601("1970-01-01T00:00:00Z"), Some(0));
    assert_eq!(parse_iso8601("2024-02-29T00:00:00Z"), Some(1709164800));
    assert_eq!(parse_iso8601("2024-01-15T10:30:00-01:30"), Some(1705314600 + 5400));
    assert_eq!(parse_iso8601("  2024-01-15 10:30:00  "), Some(1705314600));
    assert_eq!(parse_iso8601("2024-01-15X10:30:00"), None);
    assert_eq!(epoch_secs_to_components(-1), (1969, 12, 31, 23, 59, 59));
}

#[test]
fn calendar_components_convert_back() {
    for e in [-86_401i64, -1, 0, 1, 68_169_600, 951_782_400, 951_868_799, 4_107_542_400, 253_402_300_799] {
        let (y, mo, d, h, mi, s) = epoch_secs_to_components(e);
        let text = format!("{:04}-{:02}-{:02}T{:02}:{:02}:{:02}Z", y, mo, d, h, mi, s);
        assert_eq!(parse_iso8601(&text), Some(e), "{}", text);
    }
}

#[test]
fn absolute_datetime_shows_the_timestamp_back() {
    for (value, shown) in [
        ("2024-02-29T23:59:59Z", "2024-02-29 23:59:59"),
        ("2000-02-29T00:00:00Z", "2000-02-29 00:00:00"),
        ("1900-03-01T12:00:00Z", "1900-03-01 12:00:00"),
        ("0001-01-01T00:00:00Z", "0001-01-01 00:00:00"),
        ("9999-12-31T23:59:59Z", "9999-12-31 23:59:59"),
    ] {
        assert_eq!(format_datetime(value, &DateTimeMode::Absolute).as_deref(), Some(shown));
    }
}
