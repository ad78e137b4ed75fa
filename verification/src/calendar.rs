//! Instants, calendar dates and the Saturday-to-Friday work week.
//!
//! Instants and dates are plain numbers here: an instant is whole seconds
//! since the Unix epoch plus nanoseconds, a date is its day count from the
//! Common Era as `chrono` numbers it (January 1 of year 1 is day 1). The
//! clock, the machine's time zone and date formatting are `chrono`'s and are
//! reached through the trusted functions at the end of this file.

use chrono::Datelike;
use chrono::TimeZone;
use vstd::prelude::*;
use crate::text::{
    decimal, push_decimal, push_signed_decimal, push_str, signed_decimal, string_of, zero_padded,
};

verus! {

/// Seconds in a day.
pub const SECONDS_PER_DAY: i64 = 86_400;

/// Nanoseconds in a second.
pub const NANOS_PER_SECOND: u32 = 1_000_000_000;

/// The day number of January 1, 1970.
pub const UNIX_EPOCH_DAY: i64 = 719_163;

/// The earliest second that `chrono` can represent (January 1 of year -262143).
pub const MIN_TIMESTAMP: i64 = -8_334_601_228_800;

/// The latest second that `chrono` can represent (December 31 of year 262142).
pub const MAX_TIMESTAMP: i64 = 8_210_266_876_799;

/// The earliest day number of a representable date.
pub const MIN_DAY: i32 = -95_746_129;

/// The latest day number of a representable date.
pub const MAX_DAY: i32 = 95_745_399;

/// An instant in UTC: seconds since the Unix epoch and the nanoseconds past
/// that second.
#[derive(Clone, Copy, Debug, PartialEq, Eq, Structural)]
pub struct Timestamp {
    pub secs: i64,
    pub nanos: u32,
}

/// A calendar date, as its day number from the Common Era.
#[derive(Clone, Copy, Debug, PartialEq, Eq, Structural)]
pub struct Date {
    pub days_from_ce: i32,
}

impl Timestamp {
    /// A representable instant, as `chrono` holds one: its nanoseconds below
    /// one second, or below two during a leap second, which `chrono` keeps
    /// in a second that ends a minute.
    pub open spec fn wf(self) -> bool {
        &&& MIN_TIMESTAMP <= self.secs <= MAX_TIMESTAMP
        &&& self.nanos < 2 * NANOS_PER_SECOND
        &&& self.nanos >= NANOS_PER_SECOND ==> (self.secs as int) % 60 == 59
    }

    /// A representable instant outside a leap second.
    pub open spec fn regular(self) -> bool {
        self.wf() && self.nanos < NANOS_PER_SECOND
    }

    /// Whether the instant is representable.
    pub fn is_wf(&self) -> (b: bool)
        ensures
            b == self.wf(),
    {
        let r: i64 = self.secs % 60;
        let minute_end = r == 59 || r == -1;
        MIN_TIMESTAMP <= self.secs && self.secs <= MAX_TIMESTAMP && self.nanos < 2 * NANOS_PER_SECOND
            && (self.nanos < NANOS_PER_SECOND || minute_end)
    }

    /// An instant whose local date can be represented in every time zone: at
    /// least a day away from both ends of the representable range (time zone
    /// offsets are below one day).
    pub open spec fn local_safe(self) -> bool {
        &&& self.wf()
        &&& MIN_TIMESTAMP + SECONDS_PER_DAY <= self.secs <= MAX_TIMESTAMP - SECONDS_PER_DAY
    }

    /// An instant whose local date also has its work week's Saturday
    /// representable in every time zone: a week past the earliest instant.
    pub open spec fn week_safe(self) -> bool {
        &&& self.local_safe()
        &&& MIN_TIMESTAMP + 7 * SECONDS_PER_DAY <= self.secs
    }

    /// The instant in nanoseconds since the epoch.
    pub open spec fn total_nanos(self) -> int {
        self.secs * 1_000_000_000 + self.nanos
    }

    /// `self` comes strictly before `other`.
    pub open spec fn before(self, other: Timestamp) -> bool {
        self.secs < other.secs || (self.secs == other.secs && self.nanos < other.nanos)
    }

    /// The day number of the UTC date of the instant.
    pub open spec fn utc_day(self) -> int {
        self.secs / 86_400 + 719_163
    }

    /// Builds an instant from seconds and nanoseconds, a leap second
    /// included, as `chrono` does; `None` when it is not representable.
    pub fn from_parts(secs: i64, nanos: u32) -> (t: Option<Timestamp>)
        ensures
            t == (if (Timestamp { secs, nanos }).wf() {
                Some(Timestamp { secs, nanos })
            } else {
                None
            }),
    {
        let candidate = Timestamp { secs, nanos };
        if candidate.is_wf() {
            Some(candidate)
        } else {
            None
        }
    }

    /// Compares two instants: whether `self` is strictly earlier.
    pub fn is_before(&self, other: &Timestamp) -> (b: bool)
        ensures
            b == self.before(*other),
    {
        self.secs < other.secs || (self.secs == other.secs && self.nanos < other.nanos)
    }
}

/// The second of its UTC day at which an instant lies (0 to 86399).
pub open spec fn second_of_day(t: Timestamp) -> int {
    (t.secs as int) % 86_400
}

/// How `chrono` counts a leap second between two instants: one second more
/// when the earlier instant, within an earlier second of the day, lies in a
/// leap second; one less when the later instant does; none otherwise (a leap
/// second counts only while both instants lie on the same side of midnight).
pub open spec fn leap_adjust(start: Timestamp, end: Timestamp) -> int {
    if second_of_day(end) > second_of_day(start) && start.nanos >= 1_000_000_000 {
        1
    } else if second_of_day(end) < second_of_day(start) && end.nanos >= 1_000_000_000 {
        -1
    } else {
        0
    }
}

/// Whole seconds from `start` to `end`, truncated toward zero, as
/// `(end - start).num_seconds()` counts them.
pub open spec fn seconds_between(start: Timestamp, end: Timestamp) -> int {
    let d = end.total_nanos() - start.total_nanos() + leap_adjust(start, end) * 1_000_000_000;
    if d >= 0 {
        d / 1_000_000_000
    } else {
        -((-d) / 1_000_000_000)
    }
}

fn second_of_day_of(t: &Timestamp) -> (s: i64)
    ensures
        s == second_of_day(*t),
{
    let r: i64 = t.secs % 86_400;
    if r < 0 {
        r + 86_400
    } else {
        r
    }
}

/// Computes the whole seconds from `start` to `end`, truncated toward zero.
pub fn seconds_since(start: &Timestamp, end: &Timestamp) -> (s: i64)
    requires
        start.wf(),
        end.wf(),
    ensures
        s == seconds_between(*start, *end),
{
    let a = second_of_day_of(end);
    let b = second_of_day_of(start);
    let adjust: i128 = if a > b && start.nanos >= NANOS_PER_SECOND {
        1
    } else if a < b && end.nanos >= NANOS_PER_SECOND {
        -1
    } else {
        0
    };
    let d: i128 = (end.secs as i128 - start.secs as i128) * 1_000_000_000 + (end.nanos as i128
        - start.nanos as i128) + adjust * 1_000_000_000;
    let s: i128 = if d >= 0 {
        d / 1_000_000_000
    } else {
        -((-d) / 1_000_000_000)
    };
    s as i64
}

/// The instant `seconds` whole seconds after `t`, when representable, as
/// `t + TimeDelta::seconds(seconds)` gives it.
pub open spec fn shifted(t: Timestamp, seconds: int) -> Option<Timestamp> {
    if MIN_TIMESTAMP <= t.secs + seconds <= MAX_TIMESTAMP {
        Some(Timestamp { secs: (t.secs + seconds) as i64, nanos: t.nanos })
    } else {
        None
    }
}

/// Adds whole seconds to an instant; `None` when the result is out of range.
pub fn add_seconds(t: &Timestamp, seconds: i64) -> (r: Option<Timestamp>)
    requires
        t.regular(),
    ensures
        r == shifted(*t, seconds as int),
        r matches Some(v) ==> v.wf(),
{
    let secs: i128 = t.secs as i128 + seconds as i128;
    if MIN_TIMESTAMP as i128 <= secs && secs <= MAX_TIMESTAMP as i128 {
        Some(Timestamp { secs: secs as i64, nanos: t.nanos })
    } else {
        None
    }
}

// ---------------------------------------------------------------------------
// Dates and the work week

impl Date {
    /// A representable date.
    pub open spec fn wf(self) -> bool {
        MIN_DAY <= self.days_from_ce <= MAX_DAY
    }

    /// The date `days` days later.
    pub fn plus_days(self, days: u64) -> (d: Date)
        requires
            self.wf(),
            self.days_from_ce + days <= MAX_DAY,
        ensures
            d.days_from_ce == self.days_from_ce + days,
            d.wf(),
    {
        Date { days_from_ce: (self.days_from_ce as i64 + days as i64) as i32 }
    }

    /// The date `days` days earlier.
    pub fn minus_days(self, days: u64) -> (d: Date)
        requires
            self.wf(),
            self.days_from_ce - days >= MIN_DAY,
        ensures
            d.days_from_ce == self.days_from_ce - days,
            d.wf(),
    {
        Date { days_from_ce: (self.days_from_ce as i64 - days as i64) as i32 }
    }
}

/// Days since the most recent Saturday: 0 on Saturday, 6 on Friday. Day 1
/// (January 1 of year 1) was a Monday.
pub open spec fn offset_from_saturday(days_from_ce: int) -> int {
    (days_from_ce + 1) % 7
}

/// How many days `date` lies after the Saturday that starts its work week.
pub fn days_from_saturday(date: Date) -> (n: u32)
    ensures
        n == offset_from_saturday(date.days_from_ce as int),
        n < 7,
{
    let r: i64 = (date.days_from_ce as i64 + 1) % 7;
    let e: i64 = if r < 0 { r + 7 } else { r };
    e as u32
}

/// The day number of the Saturday that starts the work week of `days_from_ce`.
pub open spec fn week_start_of(days_from_ce: int) -> int {
    days_from_ce - offset_from_saturday(days_from_ce)
}

/// The Saturday that starts the work week containing `date`.
pub fn saturday_of(date: Date) -> (start: Date)
    requires
        date.wf(),
        week_start_of(date.days_from_ce as int) >= MIN_DAY,
    ensures
        start.wf(),
        start.days_from_ce == week_start_of(date.days_from_ce as int),
{
    let n = days_from_saturday(date);
    date.minus_days(n as u64)
}

/// The Saturday of a date's week is itself a Saturday, lies at most six
/// days before the date, and is its own week's Saturday.
pub proof fn lemma_week_start(d: int)
    ensures
        offset_from_saturday(week_start_of(d)) == 0,
        0 <= d - week_start_of(d) < 7,
        week_start_of(week_start_of(d)) == week_start_of(d),
{
}

/// Two dates share a work week exactly when their Saturdays agree, that is
/// when the first lies in the seven days starting at the second's Saturday.
pub proof fn lemma_same_week(d: int, e: int)
    ensures
        (week_start_of(d) == week_start_of(e)) <==> (week_start_of(e) <= d < week_start_of(e)
            + 7),
{
}


// ---------------------------------------------------------------------------
// The clock, the local time zone and date formatting

/// How `chrono` resolves a local wall-clock time to instants.
pub enum LocalTime {
    /// The local time names exactly one instant.
    Single(Timestamp),
    /// The local time occurs twice (clocks were turned back): earliest, latest.
    Ambiguous(Timestamp, Timestamp),
    /// The local time was skipped (clocks were turned forward).
    Nonexistent,
}

/// The UTC instant of noon on a date, in seconds since the epoch.
pub open spec fn utc_noon_secs(days_from_ce: int) -> int {
    (days_from_ce - 719_163) * 86_400 + 43_200
}

/// An instant resolved from local noon on a date: representable, on a whole
/// second, and less than a day away from noon UTC of that date (time zone
/// offsets are below one day).
pub open spec fn near_noon(t: Timestamp, days_from_ce: int) -> bool {
    &&& t.wf()
    &&& t.nanos == 0
    &&& utc_noon_secs(days_from_ce) - 86_400 < t.secs < utc_noon_secs(days_from_ce) + 86_400
}

/// The current instant.
///
/// Trusted: calls `chrono::Utc::now()`, which reads the system clock as a
/// duration since the epoch (so the seconds are not negative and the
/// nanoseconds stay below one second, never in a leap second) and returns
/// only representable
/// instants. Which instant comes back is not stated.
#[verifier::external_body]
pub(crate) fn utc_now() -> (t: Timestamp)
    ensures
        t.regular(),
        t.secs >= 0,
{
    let now = chrono::Utc::now();
    Timestamp { secs: now.timestamp(), nanos: now.timestamp_subsec_nanos() }
}

/// Today's date in the machine's time zone.
///
/// Trusted: calls `chrono::Local::now().date_naive()`. `Local::now` reads
/// the UTC clock, which `chrono` takes as a duration since the epoch, and
/// shifts it by an offset below one day; so the contract claims the date is
/// representable and no earlier than December 31, 1969. Which date comes back
/// depends on the clock and the time zone and is not stated.
#[verifier::external_body]
pub(crate) fn local_today() -> (d: Date)
    ensures
        d.wf(),
        d.days_from_ce >= UNIX_EPOCH_DAY - 1,
{
    Date { days_from_ce: chrono::Local::now().date_naive().num_days_from_ce() }
}

/// The date of an instant in the machine's time zone.
///
/// Trusted: calls `with_timezone(&chrono::Local).date_naive()` on the
/// instant. The contract claims the date is representable and at most one
/// day away from the UTC date, since `chrono` keeps every offset below one
/// day; the exact date depends on the time zone and is not stated.
#[verifier::external_body]
pub(crate) fn local_date_of(t: &Timestamp) -> (d: Date)
    requires
        t.local_safe(),
    ensures
        d.wf(),
        t.utc_day() - 1 <= d.days_from_ce <= t.utc_day() + 1,
{
    let utc = chrono::DateTime::from_timestamp(t.secs, t.nanos).unwrap();
    Date { days_from_ce: utc.with_timezone(&chrono::Local).date_naive().num_days_from_ce() }
}

/// How local noon on the date with day number `days_from_ce` can resolve:
/// every instant it names is near noon UTC of that date.
pub open spec fn noon_resolved(r: LocalTime, days_from_ce: int) -> bool {
    &&& r matches LocalTime::Single(t) ==> near_noon(t, days_from_ce)
    &&& r matches LocalTime::Ambiguous(a, b) ==> near_noon(a, days_from_ce) && near_noon(b, days_from_ce)
}

/// Resolves noon on a date in the machine's time zone to instants.
///
/// Trusted: calls `chrono::Local.from_local_datetime` on the date at 12:00
/// and converts each instant to UTC. The contract claims every instant
/// returned is near noon UTC of the date, by less than a day, on a whole
/// second; which variant comes back depends on the time zone and is not
/// stated.
#[verifier::external_body]
pub(crate) fn local_noon(d: Date) -> (r: LocalTime)
    requires
        MIN_DAY < d.days_from_ce < MAX_DAY,
    ensures
        noon_resolved(r, d.days_from_ce as int),
{
    let date = chrono::NaiveDate::from_num_days_from_ce_opt(d.days_from_ce).unwrap();
    let noon = date.and_hms_opt(12, 0, 0).unwrap();
    match chrono::Local.from_local_datetime(&noon) {
        chrono::MappedLocalTime::Single(t) => LocalTime::Single(
            Timestamp { secs: t.timestamp(), nanos: t.timestamp_subsec_nanos() },
        ),
        chrono::MappedLocalTime::Ambiguous(a, b) => LocalTime::Ambiguous(
            Timestamp { secs: a.timestamp(), nanos: a.timestamp_subsec_nanos() },
            Timestamp { secs: b.timestamp(), nanos: b.timestamp_subsec_nanos() },
        ),
        chrono::MappedLocalTime::None => LocalTime::Nonexistent,
    }
}

/// The current instant, read from the system clock. Contracts speak of
/// the instant a call read as a result of this function (`call_ensures`).
pub fn clock_now() -> (t: Timestamp)
    ensures
        t.regular(),
        t.secs >= 0,
{
    utc_now()
}

/// Today's date in the machine's time zone.
pub fn today_local() -> (d: Date)
    ensures
        d.wf(),
        d.days_from_ce >= UNIX_EPOCH_DAY - 1,
{
    local_today()
}

/// The date of an instant in the machine's time zone.
pub fn local_day(t: Timestamp) -> (d: Date)
    requires
        t.local_safe(),
    ensures
        d.wf(),
        t.utc_day() - 1 <= d.days_from_ce <= t.utc_day() + 1,
{
    local_date_of(&t)
}

/// How noon on a date resolves to instants in the machine's time zone.
pub fn noon_on(d: Date) -> (r: LocalTime)
    requires
        MIN_DAY < d.days_from_ce < MAX_DAY,
    ensures
        noon_resolved(r, d.days_from_ce as int),
{
    local_noon(d)
}

/// The date patterns this library renders dates with.
pub open spec fn known_date_pattern(p: Seq<char>) -> bool {
    ||| p == "%b"@
    ||| p == "%a"@
    ||| p == "%b %-d"@
    ||| p == "%b %-d, %Y"@
    ||| p == "%a %b %-d"@
    ||| p == "%a %-m/%-d"@
    ||| p == "%A, %b %-d"@
    ||| p == "%-m/%-d"@
    ||| p == "%Y-%m-%d"@
    ||| p == "%B %-d, %Y"@
}

/// What `chrono` renders for the date with the given day number under a
/// `strftime`-style pattern.
pub uninterp spec fn formatted_date(days_from_ce: int, pattern: Seq<char>) -> Seq<char>;

/// The proleptic Gregorian date of a day number, as (year, month, day):
/// days are counted in 400-year eras of 146097 days from March 1 of year 0,
/// each year running from March so that February's leap day comes last.
pub open spec fn civil_date(days_from_ce: int) -> (int, int, int) {
    let z = days_from_ce + 305;
    let era = z / 146097;
    let doe = z - era * 146097;
    let yoe = (doe - doe / 1460 + doe / 36524 - doe / 146096) / 365;
    let doy = doe - (365 * yoe + yoe / 4 - yoe / 100);
    let mp = (5 * doy + 2) / 153;
    let day = doy - (153 * mp + 2) / 5 + 1;
    let month = if mp < 10 { mp + 3 } else { mp - 9 };
    let year = yoe + era * 400 + (if month <= 2 { 1int } else { 0int });
    (year, month, day)
}

/// The year of a day number in the proleptic Gregorian calendar.
pub open spec fn calendar_year(days_from_ce: int) -> int {
    civil_date(days_from_ce).0
}

/// The month (1 to 12) of a day number in the proleptic Gregorian calendar.
pub open spec fn calendar_month(days_from_ce: int) -> int {
    civil_date(days_from_ce).1
}

/// The day of the month of a day number in the proleptic Gregorian calendar.
pub open spec fn calendar_day(days_from_ce: int) -> int {
    civil_date(days_from_ce).2
}

/// A year as `chrono` writes it under `%Y`: four digits, zero-padded, for
/// years 0 to 9999; otherwise with an explicit sign and at least four
/// digits.
pub open spec fn year_text(year: int) -> Seq<char> {
    if 0 <= year <= 9999 {
        zero_padded(year as nat, 4)
    } else if year > 9999 {
        seq!['+'] + decimal(year as nat)
    } else {
        seq!['-'] + zero_padded((-year) as nat, 4)
    }
}

/// A date as `chrono` writes it under `%Y-%m-%d`.
pub open spec fn iso_date_text(days_from_ce: int) -> Seq<char> {
    year_text(calendar_year(days_from_ce)) + seq!['-'] + zero_padded(
        calendar_month(days_from_ce) as nat,
        2,
    ) + seq!['-'] + zero_padded(calendar_day(days_from_ce) as nat, 2)
}

/// Renders a date under one of the known patterns.
///
/// Trusted: calls `chrono::NaiveDate::format(pattern).to_string()`; the
/// contract claims the text is `formatted_date` of the day number and the
/// pattern, a function of the two alone, and, for the numeric pattern
/// `%Y-%m-%d`, the Gregorian year, month and day as `chrono` writes them.
#[verifier::external_body]
pub(crate) fn format_date(d: Date, pattern: &str) -> (text: String)
    requires
        d.wf(),
        known_date_pattern(pattern@),
    ensures
        text@ == formatted_date(d.days_from_ce as int, pattern@),
        pattern@ == "%Y-%m-%d"@ ==> text@ == iso_date_text(d.days_from_ce as int),
{
    chrono::NaiveDate::from_num_days_from_ce_opt(d.days_from_ce).unwrap().format(pattern).to_string()
}

/// Within an era, the year and the day of the (March-based) year are in
/// range, and so are the month and the day of the month they give.
proof fn lemma_civil_ranges(doe: int)
    requires
        0 <= doe < 146097,
    ensures
        ({
            let yoe = (doe - doe / 1460 + doe / 36524 - doe / 146096) / 365;
            let doy = doe - (365 * yoe + yoe / 4 - yoe / 100);
            let mp = (5 * doy + 2) / 153;
            let day = doy - (153 * mp + 2) / 5 + 1;
            &&& 0 <= yoe <= 399
            &&& 0 <= doy <= 365
            &&& 0 <= mp <= 11
            &&& 1 <= day <= 31
        }),
{
}

/// The proleptic Gregorian year, month and day of a date.
pub fn civil_parts(d: Date) -> (parts: (i32, u32, u32))
    requires
        d.wf(),
    ensures
        parts.0 == calendar_year(d.days_from_ce as int),
        parts.1 == calendar_month(d.days_from_ce as int),
        parts.2 == calendar_day(d.days_from_ce as int),
        1 <= parts.1 <= 12,
        1 <= parts.2 <= 31,
{
    let z: i64 = d.days_from_ce as i64 + 305;
    let shifted_z: i64 = z + 656 * 146097;
    let era: i64 = shifted_z / 146097 - 656;
    let doe: i64 = shifted_z % 146097;
    proof {
        assert(era == z as int / 146097);
        assert(doe == z as int - era * 146097);
        lemma_civil_ranges(doe as int);
    }
    let yoe: i64 = (doe - doe / 1460 + doe / 36524 - doe / 146096) / 365;
    let doy: i64 = doe - (365 * yoe + yoe / 4 - yoe / 100);
    let mp: i64 = (5 * doy + 2) / 153;
    let day: i64 = doy - (153 * mp + 2) / 5 + 1;
    let month: i64 = if mp < 10 { mp + 3 } else { mp - 9 };
    let year: i64 = yoe + era * 400 + if month <= 2 { 1 } else { 0 };
    (year as i32, month as u32, day as u32)
}

/// The heading of the work week starting on `start`: `Aug 22–28, 2026`
/// within one month, `Aug 29 – Sep 4, 2026` across two.
pub open spec fn week_label_text(start: int) -> Seq<char> {
    let end = start + 6;
    if calendar_month(start) == calendar_month(end) {
        formatted_date(start, "%b"@) + seq![' '] + decimal(calendar_day(start) as nat) + seq![
            '\u{2013}',
        ] + decimal(calendar_day(end) as nat) + seq![',', ' '] + signed_decimal(
            calendar_year(start),
        )
    } else {
        formatted_date(start, "%b %-d"@) + seq![' ', '\u{2013}', ' '] + formatted_date(
            end,
            "%b %-d, %Y"@,
        )
    }
}

/// Renders the heading of the work week that starts on `start`.
pub fn week_label(start: Date) -> (label: String)
    requires
        start.wf(),
        start.days_from_ce + 6 <= MAX_DAY,
    ensures
        label@ == week_label_text(start.days_from_ce as int),
{
    let end = start.plus_days(6);
    let (year, month, day) = civil_parts(start);
    let (_, end_month, end_day) = civil_parts(end);
    let mut out: Vec<char> = Vec::new();
    if month == end_month {
        let month_name = format_date(start, "%b");
        push_str(&mut out, month_name.as_str());
        out.push(' ');
        push_decimal(&mut out, day as u128);
        out.push('\u{2013}');
        push_decimal(&mut out, end_day as u128);
        out.push(',');
        out.push(' ');
        push_signed_decimal(&mut out, year as i128);
    } else {
        let first = format_date(start, "%b %-d");
        let last = format_date(end, "%b %-d, %Y");
        push_str(&mut out, first.as_str());
        out.push(' ');
        out.push('\u{2013}');
        out.push(' ');
        push_str(&mut out, last.as_str());
    }
    string_of(&out)
}

} // verus!
