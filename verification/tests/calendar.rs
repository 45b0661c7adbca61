use dayz_community_hub_core::calendar::{
    chrono_or_fallback, days_to_ymd, parse_digits, parse_iso8601_approx,
};

#[test]
fn epoch_day_is_first_of_january_1970() {
    assert_eq!(days_to_ymd(0), (1970, 1, 1));
    assert_eq!(chrono_or_fallback(0), "1970-01-01T00:00:00Z");
}

#[test]
fn known_dates() {
    assert_eq!(days_to_ymd(19737), (2024, 1, 15));
    assert_eq!(days_to_ymd(11016), (2000, 2, 29));
    assert_eq!(days_to_ymd(11017), (2000, 3, 1));
}

#[test]
fn formats_timestamp() {
    assert_eq!(chrono_or_fallback(1705322096), "2024-01-15T12:34:56Z");
    assert_eq!(chrono_or_fallback(951868799), "2000-02-29T23:59:59Z");
}

#[test]
fn parses_iso_timestamp() {
    assert_eq!(parse_iso8601_approx("2024-01-15T12:34:56.000Z"), 1705322096);
    assert_eq!(parse_iso8601_approx("1970-01-01T00:00:00Z"), 0);
    assert_eq!(parse_iso8601_approx("1969-12-31T23:59:59Z"), -1);
}

#[test]
fn short_timestamp_is_zero() {
    assert_eq!(parse_iso8601_approx("2024-01-15"), 0);
    assert_eq!(parse_iso8601_approx(""), 0);
}

#[test]
fn digits_skip_other_bytes() {
    assert_eq!(parse_digits(b"1a2"), 12);
    assert_eq!(parse_digits(b""), 0);
    assert_eq!(parse_digits(b"--"), 0);
}

#[test]
fn format_then_parse_gives_back_the_time() {
    for t in [0u64, 59, 86399, 951782400, 1705322096, 4102444800, 253402300799] {
        assert_eq!(parse_iso8601_approx(&chrono_or_fallback(t)), t as i64);
    }
}
