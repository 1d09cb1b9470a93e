//! Points in time: the system's clock, and timestamps as texts.

use vstd::prelude::*;

verus! {

// ---------------------------------------------------------------------------
// The system's clock
// ---------------------------------------------------------------------------

#[verifier::external_type_specification]
#[verifier::external_body]
pub struct ExSystemTime(std::time::SystemTime);

#[verifier::external_type_specification]
#[verifier::external_body]
pub struct ExSystemTimeError(std::time::SystemTimeError);

/// The nanoseconds of a `SystemTime` since the Unix epoch.
pub uninterp spec fn system_nanos(t: std::time::SystemTime) -> int;

/// The nanoseconds of a `Duration`.
pub uninterp spec fn duration_nanos(d: std::time::Duration) -> nat;

/// `SystemTime::now`: any point in time.
pub assume_specification[ std::time::SystemTime::now ]() -> (r: std::time::SystemTime);

/// Whether a point in time is one that a reading of the system's clock can give.
/// Nothing tells which these are, so that only a reading shows it.
pub open spec fn is_system_reading(t: std::time::SystemTime) -> bool {
    call_ensures(std::time::SystemTime::now, (), t)
}

/// What a clock shows.
fn read<T, F: Fn() -> T>(clock: F) -> (r: T)
    requires
        call_requires(clock, ()),
    ensures
        call_ensures(clock, (), r),
{
    clock()
}

/// What the system's clock shows.
pub(crate) fn system_reading() -> (r: std::time::SystemTime)
    ensures
        is_system_reading(r),
{
    read(std::time::SystemTime::now)
}

/// `SystemTime::UNIX_EPOCH`: the point from which nanoseconds are counted.
#[verifier::external_body]
pub(crate) fn unix_epoch() -> (r: std::time::SystemTime)
    ensures
        system_nanos(r) == 0,
{
    std::time::SystemTime::UNIX_EPOCH
}

/// `SystemTime::duration_since`: the time from `earlier` on, and an error where
/// `earlier` is the later of the two.
pub assume_specification[ std::time::SystemTime::duration_since ](
    t: &std::time::SystemTime,
    earlier: std::time::SystemTime,
) -> (r: Result<std::time::Duration, std::time::SystemTimeError>)
    ensures
        match r {
            Ok(d) => duration_nanos(d) == system_nanos(*t) - system_nanos(earlier),
            Err(_) => system_nanos(*t) < system_nanos(earlier),
        },
;

/// `Duration::as_secs`: the whole seconds.
pub assume_specification[ std::time::Duration::as_secs ](d: &std::time::Duration) -> (r: u64)
    ensures
        r == duration_nanos(*d) / 1_000_000_000,
;

/// `Duration::as_nanos`: all the nanoseconds.
pub assume_specification[ std::time::Duration::as_nanos ](d: &std::time::Duration) -> (r: u128)
    ensures
        r == duration_nanos(*d),
;

/// `Duration::new`: seconds and nanoseconds together. With a second or more of
/// nanoseconds the seconds might overflow, and the call would panic.
pub assume_specification[ std::time::Duration::new ](secs: u64, nanos: u32) -> (r: std::time::Duration)
    requires
        nanos < 1_000_000_000,
    ensures
        duration_nanos(r) == secs * 1_000_000_000 + nanos,
;

/// A duration of a number of nanoseconds.
pub(crate) fn duration_of(nanos: u128) -> (r: std::time::Duration)
    requires
        nanos <= u64::MAX * 1_000_000_000 + 999_999_999,
    ensures
        duration_nanos(r) == nanos,
{
    let secs: u128 = nanos / 1_000_000_000;
    let rest: u128 = nanos % 1_000_000_000;
    std::time::Duration::new(secs as u64, rest as u32)
}

/// The time of a whole that is left once a part of it is over: none where the part
/// is as long or longer.
pub(crate) fn time_left(
    whole: std::time::Duration,
    part: std::time::Duration,
) -> (r: std::time::Duration)
    ensures
        duration_nanos(r) == if duration_nanos(part) < duration_nanos(whole) {
            duration_nanos(whole) - duration_nanos(part)
        } else {
            0
        },
{
    let secs: u64 = whole.as_secs();
    let nanos: u128 = whole.as_nanos();
    let spent: u128 = part.as_nanos();
    assert(nanos / 1_000_000_000 == secs);
    if spent < nanos {
        duration_of(nanos - spent)
    } else {
        duration_of(0)
    }
}

// ---------------------------------------------------------------------------
// Timestamps
// ---------------------------------------------------------------------------

/// A point in time: seconds since the Unix epoch, and nanoseconds behind them,
/// which are a thousand million or more within a leap second.
pub type Instant = (i64, u32);

/// The point in time that an RFC 3339 text stands for, as `chrono` reads it:
/// nothing where the text is no such timestamp.
pub uninterp spec fn rfc3339_instant(s: Seq<char>) -> Option<(i64, u32)>;

/// The whole seconds from the point `then` to the point `now`, as `chrono`
/// counts them: nothing where one of them is no point in time that it knows.
pub uninterp spec fn seconds_between(now: (i64, u32), then: (i64, u32)) -> Option<i64>;

/// The RFC 3339 text that `chrono` writes for a number of seconds since the Unix
/// epoch: nothing where the number is out of its range.
pub uninterp spec fn rfc3339_text(secs: i64) -> Option<Seq<char>>;

/// The RFC 3339 text that `chrono` writes for a number of seconds since the Unix
/// epoch, to the second and with a `Z` for UTC.
pub uninterp spec fn utc_text(secs: i64) -> Seq<char>;

/// The first second that `chrono` knows, at the start of the year -262143.
pub const FIRST_SECOND: i64 = -8_334_601_228_800;

/// The last second that `chrono` knows, at the end of the year 262142.
pub const LAST_SECOND: i64 = 8_210_266_876_799;

/// Whether a point in time is one that `chrono` knows: its seconds are in range,
/// and it has a second of nanoseconds or more only at the end of a minute, where
/// a leap second can be.
pub open spec fn is_known(t: (i64, u32)) -> bool {
    &&& FIRST_SECOND <= t.0 <= LAST_SECOND
    &&& t.1 < 1_000_000_000 || (t.1 < 2_000_000_000 && t.0 % 60 == 59)
}

/// Whether the clock can show a point in time: one since the Unix epoch that
/// `chrono` knows, outside of a leap second.
pub open spec fn is_clock_time(t: (i64, u32)) -> bool {
    is_known(t) && 0 <= t.0 && t.1 < 1_000_000_000
}

/// Whether a point in time is one that a reading of the clock can give. Of these
/// only `is_clock_time` is told, so that only a reading shows it.
pub closed spec fn is_utc_reading(t: (i64, u32)) -> bool {
    call_ensures(utc_now, (), t)
}

/// Whether a text is the timestamp of the second of a reading of the clock.
pub open spec fn is_stamp(s: Seq<char>) -> bool {
    exists|now: (i64, u32)| #[trigger] is_utc_reading(now) && s == utc_text(now.0)
}

/// A number of nanoseconds in whole seconds, rounded toward zero.
pub open spec fn whole_seconds(nanos: int) -> int {
    if nanos >= 0 {
        nanos / 1_000_000_000
    } else {
        -((-nanos) / 1_000_000_000)
    }
}

/// `chrono::Utc::now`: any point in time since the Unix epoch that `chrono`
/// knows, outside of a leap second.
#[verifier::external_body]
fn utc_now() -> (r: Instant)
    ensures
        is_clock_time(r),
{
    let t = chrono::Utc::now();
    (t.timestamp(), t.timestamp_subsec_nanos())
}

/// What the clock shows, in UTC.
pub(crate) fn utc_reading() -> (r: Instant)
    ensures
        is_utc_reading(r),
        is_clock_time(r),
{
    read(utc_now)
}

/// `chrono::DateTime::parse_from_rfc3339`: the point in time, named
/// `rfc3339_instant`, and nothing where the text is refused. The years of such a
/// text are 0 to 9999, all of which `chrono` knows.
#[verifier::external_body]
pub(crate) fn parse_rfc3339(s: &str) -> (r: Option<Instant>)
    ensures
        r == rfc3339_instant(s@),
        r matches Some(t) ==> is_known(t),
{
    let t = chrono::DateTime::parse_from_rfc3339(s).ok()?;
    Some((t.timestamp(), t.timestamp_subsec_nanos()))
}

/// `chrono::TimeDelta::num_seconds` of the difference of two points: the whole
/// seconds between them, rounded toward zero, and nothing only where
/// `chrono::DateTime::from_timestamp` does not know one of them. Around leap
/// seconds `chrono` has rules of its own, so there only the name
/// `seconds_between` is claimed of the number.
#[verifier::external_body]
pub(crate) fn seconds_since(now: Instant, then: Instant) -> (r: Option<i64>)
    ensures
        r == seconds_between(now, then),
        r is Some == (is_known(now) && is_known(then)),
        now.1 < 1_000_000_000 && then.1 < 1_000_000_000 ==> (r matches Some(n) ==> n
            == whole_seconds((now.0 - then.0) * 1_000_000_000 + (now.1 - then.1))),
{
    let a = chrono::DateTime::from_timestamp(now.0, now.1)?;
    let b = chrono::DateTime::from_timestamp(then.0, then.1)?;
    Some(a.signed_duration_since(b).num_seconds())
}

/// `chrono::DateTime::from_timestamp` and its `to_rfc3339`: the text of a point
/// in time, named `rfc3339_text`, and nothing only where `chrono` does not know
/// it.
#[verifier::external_body]
pub(crate) fn rfc3339_of(secs: i64) -> (r: Option<String>)
    ensures
        match r {
            Some(s) => is_known((secs, 0)) && rfc3339_text(secs) == Some(s@),
            None => !is_known((secs, 0)) && rfc3339_text(secs) is None,
        },
{
    chrono::DateTime::from_timestamp(secs, 0).map(|t| t.to_rfc3339())
}

/// `chrono::DateTime::to_rfc3339_opts` of a second that `chrono` knows, to the
/// second and in UTC: the text named `utc_text`.
#[verifier::external_body]
pub(crate) fn utc_text_of(secs: i64) -> (r: String)
    requires
        is_known((secs, 0)),
    ensures
        r@ == utc_text(secs),
{
    let t = chrono::DateTime::from_timestamp(secs, 0).unwrap();
    t.to_rfc3339_opts(chrono::SecondsFormat::Secs, true)
}

/// The timestamp of the second that the clock shows.
pub(crate) fn now_rfc3339() -> (r: String)
    ensures
        is_stamp(r@),
{
    let now = utc_reading();
    utc_text_of(now.0)
}

/// The nanoseconds of a point in time since the Unix epoch, which are 0 where it
/// lies before that.
pub open spec fn epoch_nanos(t: std::time::SystemTime) -> nat {
    if system_nanos(t) >= 0 {
        system_nanos(t) as nat
    } else {
        0
    }
}

/// The nanoseconds since the Unix epoch, which are 0 where the clock stands
/// before it.
pub(crate) fn nanos_since_epoch(now: std::time::SystemTime) -> (r: u128)
    ensures
        r == epoch_nanos(now),
{
    match now.duration_since(unix_epoch()) {
        Ok(d) => d.as_nanos(),
        Err(_) => 0,
    }
}

} // verus!
