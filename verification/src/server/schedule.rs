//! Daily schedules: how long to wait before the first run of a job that runs
//! every day at a given hour and minute (UTC).
use vstd::prelude::*;
use crate::clock::ClockLog;

verus! {

/// Nanoseconds in a day.
pub open spec fn day_nanos() -> int {
    86_400_000_000_000
}

/// Why the first run of a schedule could not be computed.
#[derive(Debug, Clone, Copy, PartialEq, Eq, Structural)]
pub enum IntervalCreationError {
    /// The current time cannot be truncated to a day in nanoseconds.
    Truncation,
    /// The start time is out of the representable range.
    TimestampArithmetic,
    /// The delay cannot be expressed as a duration.
    DateCast,
    /// The clock is set before the Unix epoch.
    ClockBeforeEpoch,
}

/// A non-negative delay.
#[derive(Debug, Clone, Copy, PartialEq, Eq, Structural)]
pub struct Delay {
    pub secs: u64,
    pub nanos: u32,
}

impl Delay {
    pub open spec fn total_nanos(self) -> int {
        self.secs * 1_000_000_000 + self.nanos
    }
}

/// The first run of a daily schedule at `hour`:`minute` seen from `now`
/// (nanoseconds since the epoch): that time of the current day, or of the
/// next day when it has already passed. The hour and minute are taken as
/// offsets from midnight, whatever their size.
pub open spec fn first_run(now: int, hour: int, minute: int) -> int {
    let midnight = now - now % day_nanos();
    let start = midnight + (hour * 60 + minute) * 60_000_000_000;
    if start < now {
        start + day_nanos()
    } else {
        start
    }
}

/// The delay of `wait` nanoseconds, as whole seconds and the nanoseconds
/// past them.
pub open spec fn delay_of(wait: int) -> Delay {
    Delay { secs: (wait / 1_000_000_000) as u64, nanos: (wait % 1_000_000_000) as u32 }
}

/// The outcome of computing the first run of a daily schedule from the
/// clock's reading: no reading gives `ClockBeforeEpoch`, an instant that does
/// not fit in 64 bits of nanoseconds gives `Truncation`, and otherwise the
/// delay is the wait until the first run.
pub open spec fn interval_outcome(reading: Option<(u64, u32)>, hour: int, minute: int) -> Result<
    Delay,
    IntervalCreationError,
> {
    match reading {
        None => Err(IntervalCreationError::ClockBeforeEpoch),
        Some(t) => {
            let now = t.0 * 1_000_000_000 + t.1;
            if now <= i64::MAX {
                Ok(delay_of(first_run(now, hour, minute) - now))
            } else {
                Err(IntervalCreationError::Truncation)
            }
        },
    }
}

/// The delay until the first run of a daily schedule, seen from the instant
/// `now_secs` seconds and `now_nanos` nanoseconds after the epoch. It fails
/// with a truncation error when that instant does not fit in 64 bits of
/// nanoseconds.
pub fn first_run_delay(now_secs: i64, now_nanos: u32, hour: u8, minute: u8) -> (delay: Result<
    Delay,
    IntervalCreationError,
>)
    requires
        now_nanos < 1_000_000_000,
    ensures
        ({
            let now = now_secs * 1_000_000_000 + now_nanos;
            &&& (i64::MIN <= now <= i64::MAX) ==> (delay matches Ok(d) && d.nanos < 1_000_000_000
                && d.total_nanos() == first_run(now, hour as int, minute as int) - now
                && d == delay_of(first_run(now, hour as int, minute as int) - now))
            &&& !(i64::MIN <= now <= i64::MAX) ==> delay == Err::<Delay, IntervalCreationError>(
                IntervalCreationError::Truncation,
            )
        }),
{
    let now: i128 = now_secs as i128 * 1_000_000_000 + now_nanos as i128;
    if now < i64::MIN as i128 || now > i64::MAX as i128 {
        return Err(IntervalCreationError::Truncation);
    }
    let day: i128 = 86_400_000_000_000;
    // Shift by a whole number of days so that the remainder is taken of a
    // non-negative number.
    let shifted: i128 = now + 106_752 * day;
    let remainder: i128 = shifted % day;
    proof {
        vstd::arithmetic::div_mod::lemma_mod_multiples_vanish(106_752, now as int, day as int);
        assert(remainder == now as int % day_nanos());
    }
    let midnight: i128 = now - remainder;
    let offset: i128 = (hour as i128 * 60 + minute as i128) * 60_000_000_000;
    let mut start: i128 = midnight + offset;
    if start < now {
        start = start + day;
    }
    let wait: i128 = start - now;
    let secs: u64 = (wait / 1_000_000_000) as u64;
    let nanos: u32 = (wait % 1_000_000_000) as u32;
    Ok(Delay { secs, nanos })
}

/// The delay until the first run of a daily schedule, seen from the clock's
/// reading `reading` (seconds and nanoseconds since the epoch). A clock set
/// before the epoch, read as `None`, gives `ClockBeforeEpoch`; an instant that
/// does not fit in 64 bits of nanoseconds gives `Truncation`.
pub fn interval_from_reading(reading: Option<(u64, u32)>, hour: u8, minute: u8) -> (delay: Result<
    Delay,
    IntervalCreationError,
>)
    requires
        reading matches Some(t) ==> t.1 < 1_000_000_000,
    ensures
        delay == interval_outcome(reading, hour as int, minute as int),
        reading is None ==> delay == Err::<Delay, IntervalCreationError>(
            IntervalCreationError::ClockBeforeEpoch,
        ),
        reading matches Some(t) ==> ({
            let now = t.0 * 1_000_000_000 + t.1;
            &&& now <= i64::MAX ==> (delay matches Ok(d) && d.nanos < 1_000_000_000
                && d.total_nanos() == first_run(now, hour as int, minute as int) - now)
            &&& now > i64::MAX ==> delay == Err::<Delay, IntervalCreationError>(
                IntervalCreationError::Truncation,
            )
        }),
{
    match reading {
        None => Err(IntervalCreationError::ClockBeforeEpoch),
        Some((secs, nanos)) => {
            if secs > i64::MAX as u64 {
                return Err(IntervalCreationError::Truncation);
            }
            first_run_delay(secs as i64, nanos, hour, minute)
        },
    }
}

/// The delay until the first run of a daily schedule, seen from the time the
/// clock reads now; the reading is recorded in `clock`, and the delay is the
/// one that reading gives.
pub fn create_interval_logged(clock: &mut ClockLog, hour: u8, minute: u8) -> (delay: Result<
    Delay,
    IntervalCreationError,
>)
    ensures
        final(clock).readings().len() == old(clock).readings().len() + 1,
        final(clock).readings().drop_last() == old(clock).readings(),
        final(clock).readings().last() matches Some(t) ==> t.1 < 1_000_000_000,
        delay == interval_outcome(final(clock).readings().last(), hour as int, minute as int),
{
    let reading = clock.read();
    proof {
        assert(final(clock).readings().drop_last() =~= old(clock).readings());
    }
    interval_from_reading(reading, hour, minute)
}

/// The delay until the first run of a daily schedule, seen from the current
/// time.
pub fn create_interval(hour: u8, minute: u8) -> (delay: Result<Delay, IntervalCreationError>)
    ensures
        delay matches Ok(d) ==> (d.nanos < 1_000_000_000 && d.total_nanos() <= day_nanos() + (
        hour * 60 + minute) * 60_000_000_000),
        delay matches Ok(d) ==> exists|now: int|
            0 <= now && #[trigger] first_run(now, hour as int, minute as int) - now
                == d.total_nanos(),
        delay matches Err(e) ==> (e == IntervalCreationError::ClockBeforeEpoch || e
            == IntervalCreationError::Truncation),
        exists|reading: Option<(u64, u32)>|
            #[trigger] interval_outcome(reading, hour as int, minute as int) == delay,
{
    let mut clock = ClockLog::new();
    let delay = create_interval_logged(&mut clock, hour, minute);
    let ghost reading = clock.readings().last();
    proof {
        if let Some(t) = reading {
            let now = t.0 * 1_000_000_000 + t.1;
            if now <= i64::MAX {
                law_interval_is_wait_until_next_run(t, hour as int, minute as int);
            }
        }
    }
    delay
}

/// The period of a daily schedule: one day.
pub fn daily_period() -> (period: Delay)
    ensures
        period.nanos == 0,
        period.total_nanos() == day_nanos(),
{
    Delay { secs: 86_400, nanos: 0 }
}

/// The `k`-th run of a daily schedule after its first one, one period apart.
pub open spec fn nth_run(now: int, hour: int, minute: int, k: nat) -> int {
    first_run(now, hour, minute) + k * day_nanos()
}

/// The first run of a daily schedule at a valid hour and minute is the next
/// time of day at that hour and minute: no earlier than now, less than a day
/// later, and that many nanoseconds after a midnight.
pub proof fn law_first_run_is_next_occurrence(now: int, hour: int, minute: int)
    requires
        0 <= hour < 24,
        0 <= minute < 60,
    ensures
        now <= first_run(now, hour, minute) < now + day_nanos(),
        first_run(now, hour, minute) % day_nanos() == (hour * 60 + minute) * 60_000_000_000,
{
    let d = day_nanos();
    let offset = (hour * 60 + minute) * 60_000_000_000;
    let q = now / d;
    let r = now % d;
    vstd::arithmetic::div_mod::lemma_fundamental_div_mod(now, d);
    vstd::arithmetic::div_mod::lemma_mod_bound(now, d);
    assert(0 <= offset < d) by (nonlinear_arith)
        requires
            0 <= hour < 24,
            0 <= minute < 60,
            offset == (hour * 60 + minute) * 60_000_000_000,
            d == 86_400_000_000_000,
    ;
    if offset < r {
        assert(first_run(now, hour, minute) == d * (q + 1) + offset) by (nonlinear_arith)
            requires
                now == d * q + r,
                first_run(now, hour, minute) == now - r + offset + d,
        ;
        vstd::arithmetic::div_mod::lemma_mod_multiples_vanish(q + 1, offset, d);
    } else {
        assert(first_run(now, hour, minute) == d * q + offset);
        vstd::arithmetic::div_mod::lemma_mod_multiples_vanish(q, offset, d);
    }
    vstd::arithmetic::div_mod::lemma_small_mod(offset as nat, d as nat);
}

/// A daily schedule at a valid hour and minute runs every day at that hour
/// and minute: each run is no earlier than now, at that time of day, one day
/// after the one before, and no time of day at that hour and minute from now
/// on is skipped.
pub proof fn law_runs_every_day(now: int, hour: int, minute: int, k: nat, t: int)
    requires
        0 <= hour < 24,
        0 <= minute < 60,
    ensures
        now <= nth_run(now, hour, minute, k),
        nth_run(now, hour, minute, k) % day_nanos() == (hour * 60 + minute) * 60_000_000_000,
        nth_run(now, hour, minute, k + 1) == nth_run(now, hour, minute, k) + day_nanos(),
        now <= t && t % day_nanos() == (hour * 60 + minute) * 60_000_000_000 ==> exists|j: nat|
            #[trigger] nth_run(now, hour, minute, j) == t,
{
    let d = day_nanos();
    let f = first_run(now, hour, minute);
    let offset = (hour * 60 + minute) * 60_000_000_000;
    law_first_run_is_next_occurrence(now, hour, minute);
    assert(k * d >= 0) by (nonlinear_arith)
        requires
            d > 0,
    ;
    assert((k + 1) * d == k * d + d) by (nonlinear_arith);
    vstd::arithmetic::div_mod::lemma_fundamental_div_mod(f, d);
    vstd::arithmetic::div_mod::lemma_mod_multiples_vanish(k as int, f, d);
    assert(nth_run(now, hour, minute, k) == d * (k as int) + f) by (nonlinear_arith)
        requires
            nth_run(now, hour, minute, k) == f + k * d,
    ;
    if now <= t && t % d == offset {
        vstd::arithmetic::div_mod::lemma_fundamental_div_mod(t, d);
        let q = t / d - f / d;
        assert(t - f == d * q) by (nonlinear_arith)
            requires
                t == d * (t / d) + offset,
                f == d * (f / d) + offset,
                q == t / d - f / d,
        ;
        assert(q >= 0) by (nonlinear_arith)
            requires
                t - f == d * q,
                t - f > -d,
                d > 0,
        ;
        let j = q as nat;
        assert(nth_run(now, hour, minute, j) == t) by (nonlinear_arith)
            requires
                nth_run(now, hour, minute, j) == f + j * d,
                t - f == d * q,
                j == q,
        ;
    }
}

/// Seen from a clock reading at or after the epoch that fits in 64 bits of
/// nanoseconds, the delay is the wait until the next time of day at the
/// given hour and minute: a delay of whole seconds and the nanoseconds past
/// them, no later than a day plus the hour and minute, and, for a valid hour
/// and minute, ending less than a day after the reading, at that time of day.
pub proof fn law_interval_is_wait_until_next_run(t: (u64, u32), hour: int, minute: int)
    requires
        t.1 < 1_000_000_000,
        t.0 * 1_000_000_000 + t.1 <= i64::MAX,
        0 <= hour <= 255,
        0 <= minute <= 255,
    ensures
        ({
            let now = t.0 * 1_000_000_000 + t.1;
            let offset = (hour * 60 + minute) * 60_000_000_000;
            &&& interval_outcome(Some(t), hour, minute) matches Ok(d)
            &&& d.nanos < 1_000_000_000
            &&& d.total_nanos() == first_run(now, hour, minute) - now
            &&& 0 <= d.total_nanos() <= day_nanos() + offset
            &&& (0 <= hour < 24 && 0 <= minute < 60) ==> {
                &&& d.total_nanos() < day_nanos()
                &&& (now + d.total_nanos()) % day_nanos() == offset
            }
        }),
{
    let now = t.0 * 1_000_000_000 + t.1;
    let d = day_nanos();
    let offset = (hour * 60 + minute) * 60_000_000_000;
    let w = first_run(now, hour, minute) - now;
    vstd::arithmetic::div_mod::lemma_fundamental_div_mod(now, d);
    vstd::arithmetic::div_mod::lemma_mod_bound(now, d);
    assert(0 <= offset) by (nonlinear_arith)
        requires
            0 <= hour,
            0 <= minute,
            offset == (hour * 60 + minute) * 60_000_000_000,
    ;
    assert(0 <= w <= d + offset);
    vstd::arithmetic::div_mod::lemma_fundamental_div_mod(w, 1_000_000_000);
    vstd::arithmetic::div_mod::lemma_mod_bound(w, 1_000_000_000);
    assert(0 <= w / 1_000_000_000 <= w) by (nonlinear_arith)
        requires
            0 <= w,
    ;
    assert(w <= 86_400_000_000_000 + 255 * 61 * 60_000_000_000) by (nonlinear_arith)
        requires
            w <= d + offset,
            d == 86_400_000_000_000,
            offset == (hour * 60 + minute) * 60_000_000_000,
            0 <= hour <= 255,
            0 <= minute <= 255,
    ;
    assert(delay_of(w).total_nanos() == w);
    if 0 <= hour < 24 && 0 <= minute < 60 {
        law_first_run_is_next_occurrence(now, hour, minute);
    }
}

} // verus!
