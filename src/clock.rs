//! Civil date-times, the publisher's time zone and publication dates.
use chrono::{Datelike, Offset, TimeZone, Timelike};
use vstd::arithmetic::div_mod::{lemma_hoist_over_denominator, lemma_mod_multiples_vanish};
use vstd::prelude::*;

verus! {

/// The format of the validity categories: `2024-03-01 08:00:00`.
pub const VALIDITY_FORMAT: &'static str = "%Y-%m-%d %H:%M:%S";

/// The publisher's civil time zone, as an IANA name.
pub const PUBLISHER_ZONE: &'static str = "Europe/Berlin";

/// A date and a wall-clock time, without a time zone.
#[derive(Clone, Copy, Debug, PartialEq, Eq, Structural)]
pub struct CivilTime {
    pub year: i32,
    pub month: u32,
    pub day: u32,
    pub hour: u32,
    pub minute: u32,
    pub second: u32,
}

pub open spec fn is_leap_year(y: int) -> bool {
    (y % 4 == 0 && y % 100 != 0) || y % 400 == 0
}

pub open spec fn days_in_month(y: int, m: int) -> int {
    if m == 2 {
        if is_leap_year(y) {
            29
        } else {
            28
        }
    } else if m == 4 || m == 6 || m == 9 || m == 11 {
        30
    } else {
        31
    }
}

pub open spec fn days_in_year(y: int) -> int {
    if is_leap_year(y) {
        366
    } else {
        365
    }
}

/// Days from 1970-01-01 to the first of January of year `y` (negative
/// before 1970).
pub open spec fn days_before_year(y: int) -> int
    decreases (if y >= 1970 {
        y - 1970
    } else {
        1970 - y
    }),
{
    if y > 1970 {
        days_before_year(y - 1) + days_in_year(y - 1)
    } else if y < 1970 {
        days_before_year(y + 1) - days_in_year(y)
    } else {
        0
    }
}

/// Days from the first of January to the first of month `m` of year `y`.
pub open spec fn days_before_month(y: int, m: int) -> int
    decreases m,
{
    if m <= 1 {
        0
    } else {
        days_before_month(y, m - 1) + days_in_month(y, m - 1)
    }
}

/// Days from 1970-01-01 to the given date of the proleptic Gregorian
/// calendar.
pub open spec fn days_from_civil(y: int, m: int, d: int) -> int {
    days_before_year(y) + days_before_month(y, m) + d - 1
}

/// A count of leap years that grows by one exactly at each leap year `x`.
pub open spec fn leap_count(x: int) -> int {
    x / 4 - x / 100 + x / 400
}

proof fn lemma_leap_count_step(x: int)
    ensures
        leap_count(x) - leap_count(x - 1) == if is_leap_year(x) {
            1int
        } else {
            0int
        },
{
}

/// Whole years in closed form.
proof fn lemma_days_before_year(y: int)
    ensures
        days_before_year(y) == 365 * (y - 1970) + leap_count(y - 1) - leap_count(1969),
    decreases (if y >= 1970 {
        y - 1970
    } else {
        1970 - y
    }),
{
    if y > 1970 {
        lemma_days_before_year(y - 1);
        lemma_leap_count_step(y - 1);
    } else if y < 1970 {
        lemma_days_before_year(y + 1);
        lemma_leap_count_step(y);
    }
}

/// Shifting a year by whole four-century cycles keeps its leap count's
/// differences and its leap status.
proof fn lemma_shifted_year(y: int)
    ensures
        (y - 1 + 280000) / 4 - (y - 1 + 280000) / 100 + (y - 1 + 280000) / 400 - 67900 == leap_count(
            y - 1,
        ),
        is_leap_year(y) == (((y + 280000) % 4 == 0 && (y + 280000) % 100 != 0) || (y + 280000) % 400
            == 0),
{
    let x = y - 1;
    lemma_hoist_over_denominator(x, 70000, 4);
    lemma_hoist_over_denominator(x, 2800, 100);
    lemma_hoist_over_denominator(x, 700, 400);
    lemma_mod_multiples_vanish(70000, y, 4);
    lemma_mod_multiples_vanish(2800, y, 100);
    lemma_mod_multiples_vanish(700, y, 400);
}

/// Days before each month, by the table of month lengths.
proof fn lemma_days_before_month(y: int, m: int)
    requires
        1 <= m <= 12,
    ensures
        days_before_month(y, m) == (if m == 1 {
            0int
        } else if m == 2 {
            31int
        } else if m == 3 {
            59int
        } else if m == 4 {
            90int
        } else if m == 5 {
            120int
        } else if m == 6 {
            151int
        } else if m == 7 {
            181int
        } else if m == 8 {
            212int
        } else if m == 9 {
            243int
        } else if m == 10 {
            273int
        } else if m == 11 {
            304int
        } else {
            334int
        }) + (if is_leap_year(y) && m > 2 {
            1int
        } else {
            0int
        }),
{
    reveal_with_fuel(days_before_month, 12);
}

impl CivilTime {
    /// A real calendar date and time of day, in the range of years that
    /// chrono represents.
    pub open spec fn wf(&self) -> bool {
        &&& -262143 <= self.year <= 262142
        &&& 1 <= self.month <= 12
        &&& 1 <= self.day <= days_in_month(self.year as int, self.month as int)
        &&& self.hour < 24
        &&& self.minute < 60
        &&& self.second < 60
    }

    /// Seconds since 1970-01-01 00:00:00, reading the time as UTC.
    pub open spec fn seconds(&self) -> int {
        days_from_civil(self.year as int, self.month as int, self.day as int) * 86400 + self.hour
            * 3600 + self.minute * 60 + self.second
    }

    /// Seconds since 1970-01-01 00:00:00, reading the time as UTC.
    pub fn utc_seconds(&self) -> (r: i64)
        requires
            self.wf(),
        ensures
            r == self.seconds(),
            -9_000_000_000_000 < r < 9_000_000_000_000,
    {
        let y = self.year as i64;
        let m = self.month;
        // Shifted by whole four-century cycles, so that division rounds down.
        let prev = y - 1 + 280000;
        let leaps = prev / 4 - prev / 100 + prev / 400 - 67900;
        let shifted = y + 280000;
        let leap = (shifted % 4 == 0 && shifted % 100 != 0) || shifted % 400 == 0;
        let before: i64 = if m == 1 {
            0
        } else if m == 2 {
            31
        } else if m == 3 {
            59
        } else if m == 4 {
            90
        } else if m == 5 {
            120
        } else if m == 6 {
            151
        } else if m == 7 {
            181
        } else if m == 8 {
            212
        } else if m == 9 {
            243
        } else if m == 10 {
            273
        } else if m == 11 {
            304
        } else {
            334
        };
        let before = if leap && m > 2 {
            before + 1
        } else {
            before
        };
        proof {
            let yi = self.year as int;
            lemma_shifted_year(yi);
            lemma_days_before_year(yi);
            assert(leap_count(1969) == 477);
            lemma_days_before_month(yi, m as int);
        }
        let days = 365 * (y - 1970) + leaps - 477 + before + self.day as i64 - 1;
        days * 86400 + self.hour as i64 * 3600 + self.minute as i64 * 60 + self.second as i64
    }
}

/// How a wall-clock time maps to UTC in a zone: the offsets (local minus
/// UTC, in seconds) that apply to it.
#[derive(Clone, Copy, Debug, PartialEq, Eq, Structural)]
pub enum LocalOffsets {
    /// The time is skipped, as when clocks go forward.
    Gap,
    /// The time occurs once.
    Single(i32),
    /// The time occurs twice, as when clocks go back: the offsets of its
    /// two readings, in the order chrono-tz reports them.
    Ambiguous(i32, i32),
}

impl LocalOffsets {
    pub open spec fn bounded(&self) -> bool {
        match *self {
            LocalOffsets::Gap => true,
            LocalOffsets::Single(o) => -86400 < o < 86400,
            LocalOffsets::Ambiguous(a, b) => -86400 < a < 86400 && -86400 < b < 86400,
        }
    }
}

/// Why a validity time could not be converted.
#[derive(Clone, Copy, Debug, PartialEq, Eq, Structural)]
pub enum TimeError {
    /// The text is not a date-time in the expected format.
    Malformed,
    /// The wall-clock time is skipped in the zone.
    Undefined,
    /// The zone's name is not known.
    UnknownZone,
}

/// What chrono's `NaiveDateTime::parse_from_str(s, fmt)` gives.
pub uninterp spec fn naive_parse_of(s: Seq<char>, fmt: Seq<char>) -> Option<CivilTime>;

/// What chrono-tz's `offset_from_local_datetime` gives for the zone so named.
pub uninterp spec fn zone_offsets_of(zone: Seq<char>, t: CivilTime) -> Option<LocalOffsets>;

/// What chrono's `DateTime::parse_from_rfc2822(s)` gives, as seconds since
/// the epoch.
pub uninterp spec fn rfc2822_instant_of(s: Seq<char>) -> Option<int>;

/// What chrono's `to_rfc3339_opts(SecondsFormat::Secs, true)` gives for the
/// UTC instant `secs`, where chrono represents that instant.
pub uninterp spec fn utc_text_of(secs: int) -> Option<Seq<char>>;

/// Relies on chrono's `NaiveDateTime::parse_from_str`: a date-time read
/// under `fmt`, always a valid date with a whole-second time of day.
#[verifier::external_body]
fn parse_civil(s: &str, fmt: &str) -> (r: Option<CivilTime>)
    ensures
        r == naive_parse_of(s@, fmt@),
        r matches Some(t) ==> t.wf(),
{
    match chrono::NaiveDateTime::parse_from_str(s, fmt) {
        Ok(n) => Some(
            CivilTime {
                year: n.year(),
                month: n.month(),
                day: n.day(),
                hour: n.hour(),
                minute: n.minute(),
                second: n.second(),
            },
        ),
        Err(_) => None,
    }
}

/// Relies on chrono-tz's `Tz::from_str` for the zone's name and on its
/// `offset_from_local_datetime`: the offsets in force at a wall-clock time,
/// each a chrono `FixedOffset`, whose size is under a day.
#[verifier::external_body]
fn zone_offsets(zone: &str, t: &CivilTime) -> (r: Option<LocalOffsets>)
    requires
        t.wf(),
    ensures
        r == zone_offsets_of(zone@, *t),
        r matches Some(o) ==> o.bounded(),
{
    let tz: chrono_tz::Tz = zone.parse().ok()?;
    let naive = chrono::NaiveDate::from_ymd_opt(t.year, t.month, t.day).and_then(
        |d| d.and_hms_opt(t.hour, t.minute, t.second),
    ).unwrap_or_default();
    Some(
        match tz.offset_from_local_datetime(&naive) {
            chrono::LocalResult::None => LocalOffsets::Gap,
            chrono::LocalResult::Single(o) => LocalOffsets::Single(o.fix().local_minus_utc()),
            chrono::LocalResult::Ambiguous(a, b) => LocalOffsets::Ambiguous(
                a.fix().local_minus_utc(),
                b.fix().local_minus_utc(),
            ),
        },
    )
}

/// Relies on chrono's `DateTime::parse_from_rfc2822`, with the instant read
/// by `timestamp`.
#[verifier::external_body]
fn parse_rfc2822(s: &str) -> (r: Option<i64>)
    ensures
        opt_i64(r) == rfc2822_instant_of(s@),
{
    chrono::DateTime::parse_from_rfc2822(s).ok().map(|d| d.timestamp())
}

/// Relies on chrono's `DateTime::<Utc>::from_timestamp` and
/// `to_rfc3339_opts(SecondsFormat::Secs, true)`.
#[verifier::external_body]
fn format_utc(secs: i64) -> (r: Option<String>)
    ensures
        match r {
            Some(t) => utc_text_of(secs as int) == Some(t@),
            None => utc_text_of(secs as int) is None,
        },
{
    chrono::DateTime::from_timestamp(secs, 0).map(
        |d| d.to_rfc3339_opts(chrono::SecondsFormat::Secs, true),
    )
}

pub open spec fn opt_i64(o: Option<i64>) -> Option<int> {
    match o {
        Some(v) => Some(v as int),
        None => None,
    }
}

/// The instant that a wall-clock time in `zone` stands for. A time that
/// occurs twice takes its first reading; a skipped time has none.
pub open spec fn zoned_instant(zone: Seq<char>, t: CivilTime) -> Result<int, TimeError> {
    match zone_offsets_of(zone, t) {
        Some(LocalOffsets::Single(o)) => Ok(t.seconds() - o),
        Some(LocalOffsets::Ambiguous(a, _)) => Ok(t.seconds() - a),
        Some(LocalOffsets::Gap) => Err(TimeError::Undefined),
        None => Err(TimeError::UnknownZone),
    }
}

/// The instant that a validity string names, read as a wall-clock time in
/// the publisher's zone.
pub open spec fn validity_instant(s: Seq<char>) -> Result<int, TimeError> {
    match naive_parse_of(s, VALIDITY_FORMAT@) {
        Some(t) => zoned_instant(PUBLISHER_ZONE@, t),
        None => Err(TimeError::Malformed),
    }
}

pub open spec fn result_int(r: Result<i64, TimeError>) -> Result<int, TimeError> {
    match r {
        Ok(v) => Ok(v as int),
        Err(e) => Err(e),
    }
}

/// The instant, in seconds since the epoch, of a wall-clock time in the
/// zone named `zone`.
pub fn instant_in_zone(zone: &str, t: &CivilTime) -> (r: Result<i64, TimeError>)
    requires
        t.wf(),
    ensures
        result_int(r) == zoned_instant(zone@, *t),
{
    match zone_offsets(zone, t) {
        Some(LocalOffsets::Single(o)) => Ok(t.utc_seconds() - o as i64),
        Some(LocalOffsets::Ambiguous(a, _)) => Ok(t.utc_seconds() - a as i64),
        Some(LocalOffsets::Gap) => Err(TimeError::Undefined),
        None => Err(TimeError::UnknownZone),
    }
}

/// Converts a validity string such as `2024-03-01 08:00:00`, a wall-clock
/// time in the publisher's zone, to seconds since the epoch.
pub fn validity_time_to_timestamp(input: &str) -> (r: Result<i64, TimeError>)
    ensures
        result_int(r) == validity_instant(input@),
{
    match parse_civil(input, VALIDITY_FORMAT) {
        Some(t) => instant_in_zone(PUBLISHER_ZONE, &t),
        None => Err(TimeError::Malformed),
    }
}

/// Reads an RFC 2822 publication date as seconds since the epoch.
pub fn publication_instant(input: &str) -> (r: Option<i64>)
    ensures
        opt_i64(r) == rfc2822_instant_of(input@),
{
    parse_rfc2822(input)
}

/// The publication instant as UTC text at one-second precision, such as
/// `2024-03-01T07:00:00Z`.
pub fn publication_text(secs: i64) -> (r: Option<String>)
    ensures
        match r {
            Some(t) => utc_text_of(secs as int) == Some(t@),
            None => utc_text_of(secs as int) is None,
        },
{
    format_utc(secs)
}

} // verus!
