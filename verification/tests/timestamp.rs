use gh_traffic::iso8601date::{DateErrorKind, ISO8601Date, UtcFields};

#[test]
fn parses_every_field() {
    let date = ISO8601Date::from_str("2024-03-07T09:15:00Z").unwrap();
    assert_eq!(date.year, 2024);
    assert_eq!(date.month, 3);
    assert_eq!(date.day, 7);
    assert_eq!(date.hours, 9);
    assert_eq!(date.minutes, 15);
    assert_eq!(date.seconds, 0);
    assert_eq!(date.tz, "Z");
}

#[test]
fn text_round_trips() {
    for text in [
        "2024-03-07T09:15:00Z",
        "2024-01-01T00:00:00+02:00",
        "1999-12-31T23:59:59",
        "0007-1-2T1:2:3:45 whatever",
    ] {
        let date = ISO8601Date::from_str(text).unwrap();
        assert_eq!(date.to_string(), text);
        assert_eq!(date.raw, text);
    }
}

#[test]
fn date_key_is_padded() {
    let date = ISO8601Date::from_str("2024-03-07T09:15:00Z").unwrap();
    assert_eq!(date.as_date_str(), "2024-03-07");
}

#[test]
fn date_key_pads_month_and_day_but_not_the_year() {
    let date = ISO8601Date::from_str("0987-1-2T00:00:00Z").unwrap();
    assert_eq!(date.year, 987);
    assert_eq!(date.as_date_str(), "987-01-02");
    let date = ISO8601Date::from_str("2024-12-31T00:00:00Z").unwrap();
    assert_eq!(date.as_date_str(), "2024-12-31");
    let date = ISO8601Date::from_str("0-200-100T00:00:00Z").unwrap();
    assert_eq!(date.as_date_str(), "0-200-100");
}

#[test]
fn missing_separator_is_refused_for_the_date() {
    let error = ISO8601Date::from_str("2024-03-07 09:15:00Z").unwrap_err();
    assert_eq!(error.kind, DateErrorKind::DateSeparator);
    assert_eq!(error.input, "2024-03-07 09:15:00Z");
    assert_eq!(error.message(), "Failed to parse date (2024-03-07 09:15:00Z).");
    assert!(ISO8601Date::from_str("").is_err());
}

#[test]
fn time_component_reports_its_own_missing_separator() {
    let error = ISO8601Date::parse_time_component("09:15:00Z").unwrap_err();
    assert_eq!(error.kind, DateErrorKind::TimeSeparator);
    assert_eq!(error.message(), "Failed to parse time component (09:15:00Z).");
}

#[test]
fn bad_date_fields_are_refused() {
    for text in ["2024-03T09:15:00Z", "2024-xx-07T09:15:00Z", "70000-01-01T09:15:00Z", "2024-256-01T09:15:00Z", "T09:15:00Z"] {
        let error = ISO8601Date::from_str(text).unwrap_err();
        assert_eq!(error.kind, DateErrorKind::DateFields);
        assert_eq!(error.message(), format!("Failed to parse year, month, date ({}).", text));
    }
}

#[test]
fn bad_time_fields_are_refused() {
    for text in ["2024-03-07T09:15", "2024-03-07T", "2024-03-07T09:15:0xZ", "2024-03-07T09-15-00Z", "2024-03-07T256:0:0Z"] {
        let error = ISO8601Date::from_str(text).unwrap_err();
        assert_eq!(error.kind, DateErrorKind::TimeFields);
        assert_eq!(
            error.message(),
            format!("Failed to parse hours, minutes, seconds, tz ({}).", text)
        );
    }
}

#[test]
fn date_is_read_before_time() {
    let error = ISO8601Date::from_str("2024-03Tnonsense").unwrap_err();
    assert_eq!(error.kind, DateErrorKind::DateFields);
}

#[test]
fn components_are_read_apart() {
    assert_eq!(ISO8601Date::parse_date_component("2024-03-07T").unwrap(), (2024, 3, 7));
    assert_eq!(
        ISO8601Date::parse_date_component("65535-255-0-9-9Tanything").unwrap(),
        (65535, 255, 0)
    );
    assert_eq!(
        ISO8601Date::parse_time_component("T09:15:00+01:00").unwrap(),
        (9, 15, 0, "+01:00".to_string())
    );
    assert_eq!(
        ISO8601Date::parse_time_component("xT23:59:59").unwrap(),
        (23, 59, 59, String::new())
    );
}

#[test]
fn the_first_separator_cuts() {
    let date = ISO8601Date::from_str("2024-03-07T09:15:00TZT").unwrap();
    assert_eq!(date.tz, "TZT");
    assert_eq!(date.as_date_str(), "2024-03-07");
}

#[test]
fn empty_and_zero_fields_read_as_zero() {
    let date = ISO8601Date::from_str("--T0:00:000").unwrap();
    assert_eq!((date.year, date.month, date.day), (0, 0, 0));
    assert_eq!((date.hours, date.minutes, date.seconds), (0, 0, 0));
    assert_eq!(date.tz, "");
    assert_eq!(date.as_date_str(), "0-00-00");
}

#[test]
fn a_plus_sign_is_accepted_after_the_padding() {
    let date = ISO8601Date::from_str("+2024-0+3-07T09:15:00Z").unwrap();
    assert_eq!((date.year, date.month, date.day), (2024, 3, 7));
    assert!(ISO8601Date::from_str("2024-+-07T09:15:00Z").is_err());
    let date = ISO8601Date::from_str("-20-03-07T09:15:00Z").unwrap();
    assert_eq!((date.year, date.month, date.day), (0, 20, 3));
}

#[test]
fn the_window_counts_characters() {
    let date = ISO8601Date::from_str("2024-03-07T1:2:3:\u{e9}Z").unwrap();
    assert_eq!((date.hours, date.minutes, date.seconds), (1, 2, 3));
    assert_eq!(date.tz, "");
}

#[test]
fn clock_fields_become_a_timestamp() {
    let now = UtcFields { year: 2024, month: 3, day: 7, hour: 9, minute: 15, second: 30 };
    let date = ISO8601Date::from_utc(now).unwrap();
    assert_eq!((date.year, date.month, date.day), (2024, 3, 7));
    assert_eq!((date.hours, date.minutes, date.seconds), (9, 15, 30));
    assert_eq!(date.tz, "Z");
    assert_eq!(date.to_string(), "FIXME");
    assert_eq!(date.as_date_str(), "2024-03-07");
}

#[test]
fn clock_fields_out_of_range_are_refused() {
    let fine = UtcFields { year: 65535, month: 255, day: 255, hour: 255, minute: 255, second: 255 };
    assert!(ISO8601Date::from_utc(fine).is_some());
    assert!(ISO8601Date::from_utc(UtcFields { year: 65536, ..fine }).is_none());
    assert!(ISO8601Date::from_utc(UtcFields { year: -1, ..fine }).is_none());
    assert!(ISO8601Date::from_utc(UtcFields { month: 256, ..fine }).is_none());
    assert!(ISO8601Date::from_utc(UtcFields { day: 256, ..fine }).is_none());
    assert!(ISO8601Date::from_utc(UtcFields { hour: 256, ..fine }).is_none());
    assert!(ISO8601Date::from_utc(UtcFields { minute: 256, ..fine }).is_none());
    assert!(ISO8601Date::from_utc(UtcFields { second: 256, ..fine }).is_none());
}

#[test]
fn now_is_today() {
    let before = chrono::Utc::now().date_naive();
    let now = ISO8601Date::now_utc().unwrap();
    let after = chrono::Utc::now().date_naive();
    let key = now.as_date_str();
    assert!(key == before.to_string() || key == after.to_string());
    assert!((1..=12).contains(&now.month));
    assert!((1..=31).contains(&now.day));
    assert!(now.hours <= 23 && now.minutes <= 59 && now.seconds <= 59);
    assert_eq!(now.tz, "Z");
    assert_eq!(now.to_string(), "FIXME");
}

#[test]
fn instants_are_counted_from_1970() {
    let date = ISO8601Date::from_unix_time(0, 0).unwrap();
    assert_eq!((date.year, date.month, date.day), (1970, 1, 1));
    assert_eq!((date.hours, date.minutes, date.seconds), (0, 0, 0));
    assert_eq!(date.tz, "Z");
    assert_eq!(date.to_string(), "FIXME");
    let date = ISO8601Date::from_unix_time(1709802900, 999_999_999).unwrap();
    assert_eq!((date.year, date.month, date.day), (2024, 3, 7));
    assert_eq!((date.hours, date.minutes, date.seconds), (9, 15, 0));
    assert_eq!(date.as_date_str(), "2024-03-07");
    let date = ISO8601Date::from_unix_time(951782399, 0).unwrap();
    assert_eq!((date.year, date.month, date.day), (2000, 2, 28));
    assert_eq!((date.hours, date.minutes, date.seconds), (23, 59, 59));
    let date = ISO8601Date::from_unix_time(951782400, 0).unwrap();
    assert_eq!((date.year, date.month, date.day), (2000, 2, 29));
}

#[test]
fn instants_beyond_the_sixteen_bit_years_are_refused() {
    let last = ISO8601Date::from_unix_time(2005949145599, 0).unwrap();
    assert_eq!((last.year, last.month, last.day), (65535, 12, 31));
    assert_eq!((last.hours, last.minutes, last.seconds), (23, 59, 59));
    assert!(ISO8601Date::from_unix_time(2005949145600, 0).is_none());
    assert!(ISO8601Date::from_unix_time(i64::MAX as u64, 0).is_none());
    assert!(ISO8601Date::from_unix_time(i64::MAX as u64 + 1, 0).is_none());
    assert!(ISO8601Date::from_unix_time(u64::MAX, 0).is_none());
}

#[test]
fn nanoseconds_beyond_a_leap_second_are_refused() {
    let leap = ISO8601Date::from_unix_time(59, 1_500_000_000).unwrap();
    assert_eq!((leap.hours, leap.minutes, leap.seconds), (0, 0, 59));
    assert!(ISO8601Date::from_unix_time(58, 1_500_000_000).is_none());
    assert!(ISO8601Date::from_unix_time(59, 2_000_000_000).is_none());
}
