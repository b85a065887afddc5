use ttbackend::pdf::{
    add_durations, add_month, format_duration, format_minutes_as_time, get_weekday_abbreviation,
    parse_time_to_minutes, truncate_string, Date, Interval,
};

#[test]
fn test_format_minutes_as_time() {
    assert_eq!(format_minutes_as_time(60), "01:00");
    assert_eq!(format_minutes_as_time(0), "00:00");
    assert_eq!(format_minutes_as_time(1), "00:01");
    assert_eq!(format_minutes_as_time(10), "00:10");
    assert_eq!(format_minutes_as_time(61), "01:01");
    assert_eq!(format_minutes_as_time(6000), "100:00");
}

#[test]
fn test_parse_time_to_minutes() {
    assert_eq!(parse_time_to_minutes("01:00"), 60);
    assert_eq!(parse_time_to_minutes("00:00"), 0);
    assert_eq!(parse_time_to_minutes("00:01"), 1);
    assert_eq!(parse_time_to_minutes("00:10"), 10);
    assert_eq!(parse_time_to_minutes("01:01"), 61);
    assert_eq!(parse_time_to_minutes("100:00"), 6000);
}

#[test]
fn test_parse_time_to_minutes_rejects_malformed() {
    assert_eq!(parse_time_to_minutes(""), 0);
    assert_eq!(parse_time_to_minutes("0100"), 0);
    assert_eq!(parse_time_to_minutes("01:00:00"), 0);
    assert_eq!(parse_time_to_minutes("aa:bb"), 0);
}

#[test]
fn test_add_month() {
    assert_eq!(add_month("2024-01").unwrap(), "2024-02");
    assert_eq!(add_month("2024-12").unwrap(), "2025-01");
    assert_eq!(add_month("2023-11").unwrap(), "2023-12");
}

#[test]
fn test_add_month_rejects_malformed() {
    assert!(add_month("2024").is_none());
    assert!(add_month("year-mo").is_none());
}

#[test]
fn test_get_weekday_abbreviation() {
    assert_eq!(get_weekday_abbreviation(&Date::new(2024, 9, 2).unwrap()), "Mo");
    assert_eq!(get_weekday_abbreviation(&Date::new(2024, 9, 3).unwrap()), "Di");
    assert_eq!(get_weekday_abbreviation(&Date::new(2024, 9, 4).unwrap()), "Mi");
    assert_eq!(get_weekday_abbreviation(&Date::new(2024, 9, 5).unwrap()), "Do");
    assert_eq!(get_weekday_abbreviation(&Date::new(2024, 9, 6).unwrap()), "Fr");
    assert_eq!(get_weekday_abbreviation(&Date::new(2024, 9, 7).unwrap()), "Sa");
    assert_eq!(get_weekday_abbreviation(&Date::new(2024, 9, 8).unwrap()), "So");
}

#[test]
fn test_date_validity() {
    assert!(Date::new(2024, 2, 29).is_some());
    assert!(Date::new(2023, 2, 29).is_none());
    assert!(Date::new(2000, 2, 29).is_some());
    assert!(Date::new(1900, 2, 29).is_none());
    assert!(Date::new(2024, 4, 31).is_none());
    assert!(Date::new(2024, 13, 1).is_none());
    assert!(Date::new(2024, 0, 1).is_none());
    assert!(Date::new(2024, 1, 0).is_none());
}

#[test]
fn test_add_durations() {
    let d1 = Interval { months: 2, days: 10, microseconds: 5_000_000 };
    let d2 = Interval { months: 3, days: 5, microseconds: 7_000_000 };

    let result = add_durations(&d1, &d2);

    assert_eq!(result.months, 5);
    assert_eq!(result.days, 15);
    assert_eq!(result.microseconds, 12_000_000);
}

#[test]
fn test_format_duration() {
    let duration = Interval {
        months: 0,
        days: 0,
        microseconds: 3660 * 1_000_000, // 1 hour, 1 minute
    };

    assert_eq!(format_duration(&duration), "01:01");

    let duration_zero = Interval { months: 0, days: 0, microseconds: 0 };

    assert_eq!(format_duration(&duration_zero), "00:00");
}

#[test]
fn test_truncate_string() {
    let input = "Short text";
    let result = truncate_string(input, 20);
    assert_eq!(result, "Short text");

    let input = "Exactly twenty char";
    let result = truncate_string(input, 20);
    assert_eq!(result, "Exactly twenty char");

    let input = "This is a very long text that should be truncated";
    let result = truncate_string(input, 20);
    assert_eq!(result, "This is a very long ...");

    let input = "Text";
    let result = truncate_string(input, 0);
    assert_eq!(result, "...");

    let input = "";
    let result = truncate_string(input, 10);
    assert_eq!(result, "");
}
