use ttbackend::time_utils::{calculate_difference, create_timestamp, format_duration, parse_rfc3339};

#[test]
fn test_create_timestamp() {
    // Given: The function to create a timestamp

    // When: The function is called
    let timestamp = create_timestamp();

    // Then: The timestamp can be parsed back into a date and time
    let parsed = chrono::DateTime::parse_from_rfc3339(&timestamp);
    assert!(parsed.is_ok());
    assert!(parse_rfc3339(&timestamp).is_some());
}

#[test]
fn test_calculate_difference() {
    // Given: Two different timestamps
    let start = "2007-03-01T13:00:00Z";
    let end = "2007-03-02T14:30:00Z"; // 1 day, 1 hour, 30 minutes later

    // When: Calculating the difference between the two timestamps
    let result = calculate_difference(start, end);

    // Then: The result is the expected duration
    assert!(result.is_some());
    assert_eq!(result.unwrap(), "P1DT1H30M0S");
}

#[test]
fn test_calculate_difference_same_time() {
    // Given: Two identical timestamps
    let start = "2007-03-01T13:00:00Z";
    let end = "2007-03-01T13:00:00Z"; // Same time

    // When: Calculating the difference between the two timestamps
    let result = calculate_difference(start, end);

    // Then: The result is zero duration
    assert!(result.is_some());
    assert_eq!(result.unwrap(), "P0DT0H0M0S");
}

#[test]
fn test_calculate_difference_invalid_start() {
    // Given: An invalid start timestamp and a valid end timestamp
    let start = "invalid";
    let end = "2007-03-01T13:00:00Z";

    // When: Calculating the difference between the timestamps
    let result = calculate_difference(start, end);

    // Then: No duration comes back
    assert!(result.is_none());
}

#[test]
fn test_calculate_difference_invalid_end() {
    // Given: A valid start timestamp and an invalid end timestamp
    let start = "2007-03-01T13:00:00Z";
    let end = "invalid";

    // When: Calculating the difference between the timestamps
    let result = calculate_difference(start, end);

    // Then: No duration comes back
    assert!(result.is_none());
}

#[test]
fn test_format_duration_negative() {
    // A negative duration carries negative fields, truncated toward zero.
    assert_eq!(format_duration(-90061), "P-1DT-1H-1M-1S");
    assert_eq!(format_duration(90061), "P1DT1H1M1S");
}
