use mock_edge_data::{window_ending_at, DurationError, UnsignedMillis};

fn parse(s: &str) -> Result<u64, DurationError> {
    UnsignedMillis::from_str(s).map(|m| m.0)
}

#[test]
fn hours_minutes_seconds() {
    assert_eq!(parse("1h"), Ok(3_600_000));
    assert_eq!(parse("30m"), Ok(1_800_000));
    assert_eq!(parse("5s"), Ok(5_000));
    assert_eq!(parse("0s"), Ok(0));
    assert_eq!(parse("007m"), Ok(420_000));
}

#[test]
fn missing_unit() {
    assert_eq!(parse("42"), Err(DurationError::MissingUnit));
    assert_eq!(parse(""), Err(DurationError::MissingUnit));
    assert_eq!(parse("99999999999999999999999"), Err(DurationError::MissingUnit));
}

#[test]
fn invalid_number() {
    assert_eq!(parse("h"), Err(DurationError::InvalidNumber));
    assert_eq!(parse("-5h"), Err(DurationError::InvalidNumber));
    assert_eq!(parse("+5h"), Err(DurationError::InvalidNumber));
    assert_eq!(parse(" 5h"), Err(DurationError::InvalidNumber));
    assert_eq!(parse("99999999999999999999s"), Err(DurationError::InvalidNumber));
}

#[test]
fn unknown_unit() {
    assert_eq!(parse("5x"), Err(DurationError::UnknownUnit));
    assert_eq!(parse("5hh"), Err(DurationError::UnknownUnit));
    assert_eq!(parse("5 h"), Err(DurationError::UnknownUnit));
    assert_eq!(parse("1.5h"), Err(DurationError::UnknownUnit));
}

#[test]
fn largest_durations() {
    assert_eq!(parse("5124095576030h"), Ok(5_124_095_576_030 * 3_600_000));
    assert_eq!(parse("5124095576031h"), Err(DurationError::InvalidNumber));
    assert_eq!(parse("18446744073709551s"), Ok(18_446_744_073_709_551_000));
    assert_eq!(parse("18446744073709552s"), Err(DurationError::InvalidNumber));
}

#[test]
fn window_ends_now() {
    assert_eq!(window_ending_at(1_000, UnsignedMillis(400)), (600, 1_000));
    assert_eq!(window_ending_at(1_000, UnsignedMillis(0)), (1_000, 1_000));
    assert_eq!(window_ending_at(-10, UnsignedMillis(5)), (-15, -10));
    assert_eq!(window_ending_at(i64::MIN + 5, UnsignedMillis(10)), (i64::MIN, i64::MIN + 5));
    assert_eq!(window_ending_at(i64::MAX, UnsignedMillis(u64::MAX)), (i64::MIN, i64::MAX));
    assert_eq!(window_ending_at(i64::MAX, UnsignedMillis(u64::MAX - 1)), (i64::MIN + 1, i64::MAX));
    assert_eq!(window_ending_at(0, UnsignedMillis(u64::MAX)), (i64::MIN, 0));
}
