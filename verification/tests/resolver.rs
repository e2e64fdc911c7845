use alarm_clock::parse_timespec;
use alarm_clock::Duration;
use alarm_clock::Instant;
use alarm_clock::ParseError;

#[test]
fn test_timespec() {
    let current_time = Instant::new(10, 0, 0);

    assert_eq!(
        parse_timespec("123s", current_time).ok(),
        Some(Duration::from_secs(123))
    );
    assert_eq!(
        parse_timespec("123m", current_time).ok(),
        Some(Duration::from_secs(123 * 60))
    );
    assert_eq!(
        parse_timespec("123h", current_time).ok(),
        Some(Duration::from_secs(123 * 60 * 60))
    );

    assert!(parse_timespec("123", current_time).is_err());
    assert!(parse_timespec("s", current_time).is_err());
    assert!(parse_timespec("-12s", current_time).is_err());
    assert!(parse_timespec("", current_time).is_err());
    assert!(parse_timespec("asfaf", current_time).is_err());

    assert_eq!(
        parse_timespec("10:10", current_time).ok(),
        Some(Duration::from_secs(10 * 60))
    );
    assert_eq!(
        parse_timespec("10:05", current_time).ok(),
        Some(Duration::from_secs(5 * 60))
    );
    assert!(parse_timespec("9:02", current_time).is_err());
}

#[test]
fn interval_formulas_exact() {
    let reference = Instant::new(0, 0, 0);
    assert_eq!(
        parse_timespec("0s", reference),
        Ok(Duration::from_secs(0))
    );
    assert_eq!(
        parse_timespec("1s", reference),
        Ok(Duration::from_secs(1))
    );
    assert_eq!(
        parse_timespec("2m", reference),
        Ok(Duration::from_secs(120))
    );
    assert_eq!(
        parse_timespec("2h", reference),
        Ok(Duration::from_secs(7200))
    );
    assert_eq!(
        parse_timespec("007s", reference),
        Ok(Duration::from_secs(7))
    );
}

#[test]
fn interval_limits() {
    let reference = Instant::new(12, 0, 0);
    // The largest value that fits in u64 still parses with the `s` unit.
    assert_eq!(
        parse_timespec("18446744073709551615s", reference),
        Ok(Duration::from_secs(u64::MAX))
    );
    // One more no longer parses as a u64.
    assert_eq!(
        parse_timespec("18446744073709551616s", reference),
        Err(ParseError::FormatError)
    );
    // The scaled product must fit too.
    assert_eq!(
        parse_timespec("5124095576030431h", reference),
        Ok(Duration::from_secs(5124095576030431 * 3600))
    );
    assert_eq!(
        parse_timespec("18446744073709551615h", reference),
        Err(ParseError::FormatError)
    );
}

#[test]
fn error_variants_exact() {
    let reference = Instant::new(10, 0, 0);
    assert_eq!(
        parse_timespec("123", reference),
        Err(ParseError::MissingSuffixError)
    );
    assert_eq!(
        parse_timespec("", reference),
        Err(ParseError::EmptyInputError)
    );
    assert_eq!(
        parse_timespec("asfaf", reference),
        Err(ParseError::FormatError)
    );
    assert_eq!(
        parse_timespec("-12s", reference),
        Err(ParseError::FormatError)
    );
    assert_eq!(
        parse_timespec("+12s", reference),
        Err(ParseError::FormatError)
    );
    assert_eq!(
        parse_timespec("9:02", reference),
        Err(ParseError::PastTimeError { hour: 9, minute: 2 })
    );
}

#[test]
fn clock_form_rejects_malformed() {
    let reference = Instant::new(10, 0, 0);
    assert_eq!(
        parse_timespec("24:00", reference),
        Err(ParseError::FormatError)
    );
    assert_eq!(
        parse_timespec("10:60", reference),
        Err(ParseError::FormatError)
    );
    assert_eq!(
        parse_timespec("10:", reference),
        Err(ParseError::FormatError)
    );
    assert_eq!(
        parse_timespec(":30", reference),
        Err(ParseError::FormatError)
    );
    assert_eq!(
        parse_timespec("1:2:3", reference),
        Err(ParseError::FormatError)
    );
    // A colon routes to clock form exclusively, even when the input
    // would be an invalid interval anyway.
    assert_eq!(
        parse_timespec("5s:", reference),
        Err(ParseError::FormatError)
    );
}

#[test]
fn clock_form_boundaries() {
    // Equal to the reference instant exactly: strictly future required.
    assert_eq!(
        parse_timespec("10:00", Instant::new(10, 0, 0)),
        Err(ParseError::PastTimeError { hour: 10, minute: 0 })
    );
    // One second before the named minute: the smallest positive wait.
    assert_eq!(
        parse_timespec("10:00", Instant::new(9, 59, 59)),
        Ok(Duration::from_secs(1))
    );
    // Latest nameable time of day, from midnight.
    assert_eq!(
        parse_timespec("23:59", Instant::new(0, 0, 0)),
        Ok(Duration::from_secs(23 * 3600 + 59 * 60))
    );
    // Leading zeros are allowed; the value decides.
    assert_eq!(
        parse_timespec("007:009", Instant::new(10, 0, 0)),
        Err(ParseError::PastTimeError { hour: 7, minute: 9 })
    );
}

#[test]
fn resolving_is_idempotent() {
    let reference = Instant::new(10, 0, 0);
    for input in ["123s", "10:10", "9:02", "", "asfaf", "123"] {
        let first = parse_timespec(input, reference);
        let second = parse_timespec(input, reference);
        assert_eq!(first, second);
    }
}
