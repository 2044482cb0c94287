//! Reading the clock and writing timestamps.
use vstd::prelude::*;

verus! {

/// The system clock's time, as the standard library represents it.
#[verifier::external_type_specification]
#[verifier::external_body]
pub struct ExSystemTime(std::time::SystemTime);

/// Reads the system clock.
///
/// Trusted: wraps `SystemTime::now`. Nothing is said of the time it reads.
#[verifier::external_body]
fn system_now() -> (now: std::time::SystemTime) {
    std::time::SystemTime::now()
}

/// The time elapsed since the Unix epoch, as whole seconds and the
/// nanoseconds past them, or `None` for a time before the epoch.
///
/// Trusted: wraps `SystemTime::duration_since` with `UNIX_EPOCH`, the elapsed
/// `Duration` taken apart by `Duration::as_secs` and `Duration::subsec_nanos`;
/// the latter is documented to be below one billion. The time itself is
/// opaque here, so nothing more is said of the result.
#[verifier::external_body]
fn since_epoch(time: std::time::SystemTime) -> (elapsed: Option<(u64, u32)>)
    ensures
        elapsed matches Some(e) ==> e.1 < 1_000_000_000,
{
    match time.duration_since(std::time::UNIX_EPOCH) {
        Ok(elapsed) => Some((elapsed.as_secs(), elapsed.subsec_nanos())),
        Err(_) => None,
    }
}

/// The current time as seconds and nanoseconds since the Unix epoch, or
/// `None` when the clock is set before the epoch.
pub fn unix_time_now() -> (now: Option<(u64, u32)>)
    ensures
        now matches Some(t) ==> t.1 < 1_000_000_000,
{
    since_epoch(system_now())
}

/// The readings of the system clock taken through this log, in the order
/// they were taken. Only `ClockLog::read` adds to it, and it adds what the
/// clock gave, so a contract can tie a result to the reading it came from.
pub struct ClockLog {
    readings: Ghost<Seq<Option<(u64, u32)>>>,
}

impl ClockLog {
    /// The readings taken so far, oldest first.
    pub closed spec fn readings(&self) -> Seq<Option<(u64, u32)>> {
        self.readings@
    }

    /// A log of no readings.
    pub fn new() -> (log: ClockLog)
        ensures
            log.readings() == Seq::<Option<(u64, u32)>>::empty(),
    {
        ClockLog { readings: Ghost(Seq::empty()) }
    }

    /// Reads the clock, as [`unix_time_now`] does, and records the reading.
    pub fn read(&mut self) -> (now: Option<(u64, u32)>)
        ensures
            final(self).readings() == old(self).readings().push(now),
            now matches Some(t) ==> t.1 < 1_000_000_000,
    {
        let now = unix_time_now();
        self.readings = Ghost(self.readings@.push(now));
        now
    }
}

/// The text `chrono` writes for a timestamp in the format
/// `%Y-%m-%d %H:%M:%S`, or `None` for a timestamp out of its range.
pub uninterp spec fn formatted_timestamp(secs: u64) -> Option<Seq<char>>;

/// The largest timestamp, plus one, that `chrono` represents as a date no
/// later than the last day of the year 262142.
pub open spec fn timestamp_limit() -> u64 {
    8_210_266_876_800
}

/// Writes a timestamp (seconds since the epoch) as `%Y-%m-%d %H:%M:%S`.
///
/// Trusted: wraps `NaiveDateTime::from_timestamp_opt` (with the seconds taken
/// as an `i64`) and `DateTime::format` of `chrono`. The text is named by
/// [`formatted_timestamp`]; by `DateTime::from_timestamp` in the source,
/// every timestamp below [`timestamp_limit`] is in range.
#[verifier::external_body]
#[allow(deprecated)]
pub(crate) fn format_timestamp(secs: u64) -> (text: Option<String>)
    ensures
        text is Some <==> formatted_timestamp(secs) is Some,
        text matches Some(t) ==> formatted_timestamp(secs) == Some(t@),
        secs < timestamp_limit() ==> text is Some,
{
    match chrono::NaiveDateTime::from_timestamp_opt(secs as i64, 0) {
        Some(naive) => Some(
            chrono::DateTime::<chrono::Utc>::from_utc(naive, chrono::Utc).format(
                "%Y-%m-%d %H:%M:%S",
            ).to_string(),
        ),
        None => None,
    }
}

} // verus!
