use lazytail::mcp::response::millis_to_iso8601;
use lazytail::renderer::format::parse_iso8601;


#[test]
fn millis_to_iso8601_epoch_zero() {
    assert_eq!(millis_to_iso8601(0), "1970-01-01T00:00:00Z");
}

#[test]
fn millis_to_iso8601_known_date() {
    // 2026-04-08T12:34:56Z = 1775651696 seconds = 1775651696000 ms
    assert_eq!(millis_to_iso8601(1775651696000), "2026-04-08T12:34:56Z");
}

#[test]
fn millis_to_iso8601_subsecond_truncation() {
    // 999ms after epoch should still show :00
    assert_eq!(millis_to_iso8601(999), "1970-01-01T00:00:00Z");
    assert_eq!(millis_to_iso8601(1000), "1970-01-01T00:00:01Z");
}

#[test]
fn millis_to_iso8601_leap_year() {
    // 2024-02-29T00:00:00Z (leap day) = 1709164800 seconds
    assert_eq!(millis_to_iso8601(1709164800000), "2024-02-29T00:00:00Z");
}

#[test]
fn millis_to_iso8601_year_boundary() {
    // 2024-12-31T23:59:59Z = 1735689599 seconds
    assert_eq!(millis_to_iso8601(1735689599000), "2024-12-31T23:59:59Z");
    // 2025-01-01T00:00:00Z = 1735689600 seconds
    assert_eq!(millis_to_iso8601(1735689600000), "2025-01-01T00:00:00Z");
}

#[test]
fn millis_to_iso8601_last_second_of_year_9999() {
    // four-digit years run to the end of 9999
    assert_eq!(millis_to_iso8601(253402300799000), "9999-12-31T23:59:59Z");
}

#[test]
fn iso8601_text_reads_back() {
    for ms in [0u64, 999, 1_000, 86_399_999, 951_782_400_000, 1_709_208_000_000, 1_775_651_696_789, 253_402_300_799_000] {
        let text = millis_to_iso8601(ms);
        assert_eq!(parse_iso8601(&text), Some((ms / 1000) as i64), "{}", text);
    }
}
