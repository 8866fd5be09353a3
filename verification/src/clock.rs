//! Instants, calendar days and identifiers, as the system provides them.

use chrono::Datelike;
use vstd::prelude::*;

verus! {

/// An instant, as seconds and nanoseconds since 1970-01-01 00:00:00 UTC.
///
/// `nanos` is the part of a second after `secs`; it reaches past one
/// billion only inside a leap second.
#[derive(Debug, Clone, Copy, PartialEq, Eq, Structural, Hash)]
pub struct Timestamp {
    pub secs: i64,
    pub nanos: u32,
}

/// Chronological order of instants: `a` is not later than `b`.
pub open spec fn not_after(a: Timestamp, b: Timestamp) -> bool {
    a.secs < b.secs || (a.secs == b.secs && a.nanos <= b.nanos)
}

impl Timestamp {
    /// Whether `self` is not later than `other`.
    pub fn le(&self, other: &Timestamp) -> (b: bool)
        ensures
            b == not_after(*self, *other),
    {
        self.secs < other.secs || (self.secs == other.secs && self.nanos <= other.nanos)
    }
}

/// The last second (since 1970) chrono can represent: the end of day
/// 95745399, December 31 of the year 262142.
pub const CHRONO_MAX_SECS: i64 = 8210266876799;

/// The day (counted as `num_days_from_ce`) an instant falls on in UTC.
pub open spec fn utc_day(t: Timestamp) -> int {
    t.secs as int / 86400 + 719163
}

/// The current instant.
///
/// Trusted: reads the system clock through chrono's `Utc::now`, and keeps its
/// `timestamp()` and `timestamp_subsec_nanos()`. chrono takes the time since
/// 1970 (`duration_since(UNIX_EPOCH)`, whose nanoseconds are below one
/// second; on this Unix target the seconds fit an `i64`) and unwraps
/// `from_timestamp`, so a reading it returns is after 1970 and within its
/// range. Which instant it is, is whatever the clock says.
#[verifier::external_body]
pub fn now() -> (t: Timestamp)
    ensures
        0 <= t.secs <= CHRONO_MAX_SECS,
        t.nanos < 1_000_000_000,
{
    let t = chrono::Utc::now();
    Timestamp { secs: t.timestamp(), nanos: t.timestamp_subsec_nanos() }
}

/// The earliest second (since 1970) that is a whole day after the start of
/// chrono's range, so that no time zone offset moves it out of range.
pub const LOCAL_DAY_MIN_SECS: i64 = -8334601142400;

/// The latest second (since 1970) that is a whole day before the end of
/// chrono's range, so that no time zone offset moves it out of range.
pub const LOCAL_DAY_MAX_SECS: i64 = 8210266790399;

/// Whether an instant lies far enough inside chrono's range that its local
/// date can be computed in any time zone.
pub open spec fn in_local_range(t: Timestamp) -> bool {
    LOCAL_DAY_MIN_SECS <= t.secs <= LOCAL_DAY_MAX_SECS
}

/// Whether an instant lies far enough inside chrono's range that its local
/// date can be computed in any time zone.
pub fn has_local_day(t: Timestamp) -> (b: bool)
    ensures
        b == in_local_range(t),
{
    LOCAL_DAY_MIN_SECS <= t.secs && t.secs <= LOCAL_DAY_MAX_SECS
}

/// The local calendar day an instant falls on, counted as chrono's
/// `num_days_from_ce` (1 is January 1 of year 1, proleptic Gregorian).
///
/// Trusted: converts with chrono's `DateTime::from_timestamp`, moves to the
/// system's time zone (`with_timezone(&Local)`) and takes `date_naive()`.
/// `None` is chrono's refusal of the instant, which happens only for a
/// `nanos` of a second or more that is not a leap second. A zone offset is a
/// `FixedOffset`, always under a day either way, so the local day is within
/// one day of the UTC day. `requires`
/// keeps the instant a whole day inside chrono's range (days -95746129 to
/// 95745399), since `date_naive` panics when a zone offset (always under a
/// day) pushes the local time past that range. chrono's `Local` also unwraps
/// its reading of the system's time-zone data, which fails only when that
/// data is broken; that depends on the machine, not on the argument. Nothing
/// more is stated: which of those days it is depends on the machine's time
/// zone.
#[verifier::external_body]
pub fn local_day(t: Timestamp) -> (d: Option<i32>)
    requires
        in_local_range(t),
    ensures
        t.nanos < 1_000_000_000 ==> d is Some,
        d matches Some(x) ==> utc_day(t) - 1 <= x <= utc_day(t) + 1,
{
    match chrono::DateTime::from_timestamp(t.secs, t.nanos) {
        Some(dt) => Some(dt.with_timezone(&chrono::Local).date_naive().num_days_from_ce()),
        None => None,
    }
}

/// A fresh random session identifier.
///
/// Trusted: formats uuid's `Uuid::new_v4()` with `to_string()`, whose
/// `Display` is the 36-character hyphenated form (uuid's documentation);
/// only its length is stated, as the value itself is random.
#[verifier::external_body]
pub fn new_session_id() -> (id: String)
    ensures
        id@.len() == 36,
{
    uuid::Uuid::new_v4().to_string()
}

/// The earliest calendar day chrono can represent, counted as
/// `num_days_from_ce`.
///
/// Trusted: reads chrono's `NaiveDate::MIN`, January 1 of the year -262143
/// (262144 BCE), and counts it with `num_days_from_ce`; by that function's
/// arithmetic in chrono's source the count is -95746129.
#[verifier::external_body]
pub fn earliest_day() -> (d: i32)
    ensures
        d == -95746129i32,
{
    chrono::NaiveDate::MIN.num_days_from_ce()
}

/// The month (0 for January to 11 for December) of a calendar day counted
/// as `num_days_from_ce`, as chrono computes it; `None` for a day chrono
/// cannot represent.
pub uninterp spec fn month0_of(day: i32) -> Option<u32>;

/// The month of a calendar day.
///
/// Trusted: calls chrono's `NaiveDate::from_num_days_from_ce_opt` and
/// `Datelike::month0`. The contract names the result `month0_of(day)` and
/// states chrono's documented range of `month0`, 0 to 11.
#[verifier::external_body]
pub fn month0(day: i32) -> (m: Option<u32>)
    ensures
        m == month0_of(day),
        m matches Some(x) ==> x < 12,
{
    match chrono::NaiveDate::from_num_days_from_ce_opt(day) {
        Some(date) => Some(date.month0()),
        None => None,
    }
}

} // verus!
