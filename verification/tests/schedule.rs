use osprei::server::schedule::create_interval;
use osprei::server::schedule::daily_period;
use osprei::server::schedule::interval_from_reading;
use osprei::server::schedule::first_run_delay;
use osprei::server::schedule::Delay;
use osprei::server::schedule::IntervalCreationError;

#[test]
fn test_interval_generation() {
    create_interval(12, 0).unwrap();
}

#[test]
fn first_run_later_today() {
    // 1970-01-02 10:00:00 UTC, schedule at 12:30
    let now = 86_400 + 10 * 3600;
    let delay = first_run_delay(now, 0, 12, 30).unwrap();
    assert_eq!(delay, Delay { secs: 2 * 3600 + 30 * 60, nanos: 0 });
}

#[test]
fn first_run_tomorrow_when_passed() {
    // 10:00:00.5, schedule at 09:00
    let now = 86_400 + 10 * 3600;
    let delay = first_run_delay(now, 500_000_000, 9, 0).unwrap();
    assert_eq!(delay, Delay { secs: 23 * 3600 - 1, nanos: 500_000_000 });
}

#[test]
fn first_run_now_when_exactly_on_time() {
    let now = 5 * 86_400 + 12 * 3600;
    assert_eq!(first_run_delay(now, 0, 12, 0).unwrap(), Delay { secs: 0, nanos: 0 });
}

#[test]
fn first_run_before_epoch() {
    // 1969-12-31 23:00:00, schedule at 01:00
    let delay = first_run_delay(-3600, 0, 1, 0).unwrap();
    assert_eq!(delay, Delay { secs: 2 * 3600, nanos: 0 });
}

#[test]
fn first_run_out_of_range() {
    assert_eq!(
        first_run_delay(i64::MAX / 1_000_000_000 + 1, 0, 1, 0),
        Err(IntervalCreationError::Truncation)
    );
}

#[test]
fn intervals_from_clock_readings() {
    assert_eq!(
        interval_from_reading(None, 1, 0),
        Err(IntervalCreationError::ClockBeforeEpoch)
    );
    assert_eq!(
        interval_from_reading(Some((86_400 + 10 * 3600, 0)), 12, 30),
        Ok(Delay { secs: 2 * 3600 + 30 * 60, nanos: 0 })
    );
    assert_eq!(
        interval_from_reading(Some((u64::MAX, 0)), 1, 0),
        Err(IntervalCreationError::Truncation)
    );
    assert_eq!(
        interval_from_reading(Some((i64::MAX as u64 / 1_000_000_000 + 1, 0)), 1, 0),
        Err(IntervalCreationError::Truncation)
    );
}

#[test]
fn schedules_repeat_every_day() {
    assert_eq!(daily_period(), Delay { secs: 86_400, nanos: 0 });
}
