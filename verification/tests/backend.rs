use alarm_clock::current_instant;
use alarm_clock::instant_after;
use alarm_clock::parse_current_timespec;
use alarm_clock::timespec_fmt;
use alarm_clock::AlarmRequest;
use alarm_clock::Duration;
use alarm_clock::Instant;
use alarm_clock::ParseError;

#[test]
fn formatting_is_zero_padded() {
    assert_eq!(timespec_fmt(Instant::new(5, 7, 0)), "05:07");
    assert_eq!(timespec_fmt(Instant::new(0, 0, 0)), "00:00");
    assert_eq!(timespec_fmt(Instant::new(23, 59, 59)), "23:59");
    assert_eq!(timespec_fmt(Instant::new(10, 30, 45)), "10:30");
}

#[test]
fn error_messages() {
    assert_eq!(ParseError::FormatError.message(), "Unknown format");
    assert_eq!(ParseError::MissingSuffixError.message(), "Missing suffix");
    assert_eq!(ParseError::EmptyInputError.message(), "No time specified");
    assert_eq!(
        ParseError::PastTimeError { hour: 9, minute: 2 }.message(),
        "Desired time 09:02 is in the past"
    );
}

#[test]
fn target_instant_addition() {
    let target = instant_after(Instant::new(10, 0, 0), Duration::from_secs(600));
    assert_eq!(target, Instant::new(10, 10, 0));

    let across_midnight = instant_after(Instant::new(23, 30, 0), Duration::from_secs(3600));
    assert_eq!(across_midnight, Instant::new(0, 30, 0));

    let unchanged = instant_after(Instant::new(8, 15, 30), Duration::from_secs(0));
    assert_eq!(unchanged, Instant::new(8, 15, 30));

    let whole_days = instant_after(Instant::new(6, 0, 0), Duration::from_secs(2 * 86400));
    assert_eq!(whole_days, Instant::new(6, 0, 0));
}

#[test]
fn supply_populates_request_on_valid_input() {
    let request = AlarmRequest::new(None, String::from("Time is up."));
    let reference = Instant::new(10, 0, 0);
    let updated = request.supply("10:10", String::from("tea"), reference);
    assert_eq!(updated.timespec, Some(Duration::from_secs(600)));
    assert_eq!(updated.message, "tea");
}

#[test]
fn supply_cancels_on_invalid_input() {
    let reference = Instant::new(10, 0, 0);
    for input in ["9:02", "nonsense", "", "77"] {
        let request = AlarmRequest::new(None, String::from("Time is up."));
        let updated = request.supply(input, String::from("tea"), reference);
        assert_eq!(updated.timespec, None);
        assert_eq!(updated.message, "Time is up.");
    }
}

#[test]
fn current_instant_is_in_range() {
    // The local clock may be unavailable in some environments; when it
    // answers, the reading is a valid time of day.
    if let Some(now) = current_instant() {
        assert!(now.hour < 24);
        assert!(now.minute < 60);
        assert!(now.second < 60);
    }
}

#[test]
fn current_resolution_matches_fixed_resolution_for_intervals() {
    // Interval-form results do not depend on the reference, so the
    // wall-clock entry point must agree with the injected one whenever
    // the clock is available.
    match parse_current_timespec("90s") {
        Some(result) => assert_eq!(result, Ok(Duration::from_secs(90))),
        None => (),
    }
    match parse_current_timespec("asfaf") {
        Some(result) => assert_eq!(result, Err(ParseError::FormatError)),
        None => (),
    }
}
