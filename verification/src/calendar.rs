//! Trading session calendars: US equity regular hours with NYSE holidays, and 24/5 forex.

use crate::text::{
    all_ascii, ascii_lower, chars_eq, chars_of, to_lowercase, trim, trim_chars, unicode_lowercase,
};
use time::{Date, Month, OffsetDateTime, UtcOffset};
use vstd::arithmetic::div_mod::{lemma_add_mod_noop, lemma_mod_twice};
use vstd::prelude::*;

verus! {

/// Which session calendar to apply when filtering historical bars.
#[derive(Clone, Copy, Debug, PartialEq, Eq, Structural)]
pub enum SessionFilter {
    /// No filtering (crypto 24/7 default).
    Unfiltered,
    /// US equity regular trading hours (Mon-Fri 09:30-16:00 America/New_York, NYSE holidays closed).
    EquityRth,
    /// FX 24/5 (Sun 17:00 through Fri 17:00 New York time).
    Forex245,
}

/// A proleptic Gregorian calendar date.
#[derive(Clone, Copy, Debug, PartialEq, Eq, Structural)]
pub struct CivilDate {
    pub year: i32,
    pub month: u8,
    pub day: u8,
}

/// Wall-clock fields of an instant seen at a fixed UTC offset.
#[derive(Clone, Copy, Debug)]
pub struct LocalTime {
    pub date: CivilDate,
    pub hour: u8,
    pub minute: u8,
    pub second: u8,
    /// Days from Monday (Monday = 0, Sunday = 6).
    pub weekday: u8,
}

pub open spec fn is_leap(y: int) -> bool {
    y % 4 == 0 && (y % 100 != 0 || y % 400 == 0)
}

/// Number of days in month `m` of year `y`.
pub open spec fn month_days(y: int, m: int) -> int {
    if m == 2 {
        if is_leap(y) {
            29
        } else {
            28
        }
    } else if m == 4 || m == 6 || m == 9 || m == 11 {
        30
    } else {
        31
    }
}

/// A date the calendar library can represent (years -9999 through 9999).
pub open spec fn valid_date(y: int, m: int, d: int) -> bool {
    &&& -9999 <= y <= 9999
    &&& 1 <= m <= 12
    &&& 1 <= d <= month_days(y, m)
}

impl CivilDate {
    pub open spec fn wf(self) -> bool {
        valid_date(self.year as int, self.month as int, self.day as int)
    }
}

/// Days since 1970-01-01 of a civil date (proleptic Gregorian).
pub open spec fn days_from_civil(y: int, m: int, d: int) -> int {
    let yy = if m <= 2 {
        y - 1
    } else {
        y
    };
    let era = yy / 400;
    let yoe = yy - era * 400;
    let mp = if m > 2 {
        m - 3
    } else {
        m + 9
    };
    let doy = (153 * mp + 2) / 5 + d - 1;
    let doe = yoe * 365 + yoe / 4 - yoe / 100 + doy;
    era * 146097 + doe - 719468
}

/// The civil date `z` days after 1970-01-01, as (year, month, day).
pub open spec fn civil_from_days(z: int) -> (int, int, int) {
    let zz = z + 719468;
    let era = zz / 146097;
    let doe = zz - era * 146097;
    let yoe = (doe - doe / 1460 + doe / 36524 - doe / 146096) / 365;
    let doy = doe - (365 * yoe + yoe / 4 - yoe / 100);
    let mp = (5 * doy + 2) / 153;
    let d = doy - (153 * mp + 2) / 5 + 1;
    let m = if mp < 10 {
        mp + 3
    } else {
        mp - 9
    };
    let y = yoe + era * 400 + if m <= 2 {
        1int
    } else {
        0int
    };
    (y, m, d)
}

/// Day of the week of a date, Monday = 0 (1970-01-01 was a Thursday).
pub open spec fn weekday_of(d: CivilDate) -> int {
    (days_from_civil(d.year as int, d.month as int, d.day as int) + 3) % 7
}

/// First and last representable day numbers.
pub open spec fn min_day() -> int {
    days_from_civil(-9999, 1, 1)
}

pub open spec fn max_day() -> int {
    days_from_civil(9999, 12, 31)
}

/// Local wall-clock fields of `unix_nanos` at `offset_seconds` east of UTC.
pub open spec fn local_time_of(unix_nanos: int, offset_seconds: int) -> LocalTime {
    let secs = unix_nanos / 1_000_000_000 + offset_seconds;
    let days = secs / 86400;
    let sod = secs % 86400;
    let ymd = civil_from_days(days);
    LocalTime {
        date: CivilDate { year: ymd.0 as i32, month: ymd.1 as u8, day: ymd.2 as u8 },
        hour: (sod / 3600) as u8,
        minute: ((sod % 3600) / 60) as u8,
        second: (sod % 60) as u8,
        weekday: ((days + 3) % 7) as u8,
    }
}

/// The instant and its local view both fall in the representable years.
pub open spec fn in_time_range(unix_nanos: int, offset_seconds: int) -> bool {
    let secs = unix_nanos / 1_000_000_000;
    &&& min_day() <= secs / 86400 <= max_day()
    &&& min_day() <= (secs + offset_seconds) / 86400 <= max_day()
}

/// Days in a month.
///
/// Trusted: `time::util::days_in_month`, which returns the month length of the proleptic
/// Gregorian calendar (February has 29 days in leap years).
#[verifier::external_body]
pub(crate) fn days_in_month(year: i32, month: u8) -> (r: u8)
    requires
        1 <= month <= 12,
    ensures
        r as int == month_days(year as int, month as int),
{
    time::util::days_in_month(Month::try_from(month).unwrap(), year)
}

/// Whether a calendar date exists.
///
/// Trusted: `time::Date::from_calendar_date`, which accepts exactly the valid dates of years
/// -9999 through 9999.
#[verifier::external_body]
pub(crate) fn date_exists(year: i32, month: u8, day: u8) -> (r: bool)
    ensures
        r == valid_date(year as int, month as int, day as int),
{
    match Month::try_from(month) {
        Ok(m) => Date::from_calendar_date(year, m, day).is_ok(),
        Err(_) => false,
    }
}

/// Day of the week of a date.
///
/// Trusted: `time::Date::weekday` with `Weekday::number_days_from_monday`: the proleptic
/// Gregorian weekday, Monday = 0.
#[verifier::external_body]
pub(crate) fn weekday(d: CivilDate) -> (r: u8)
    requires
        d.wf(),
    ensures
        r as int == weekday_of(d),
{
    Date::from_calendar_date(d.year, Month::try_from(d.month).unwrap(), d.day).unwrap().weekday().number_days_from_monday()
}

/// Wall-clock fields of an instant at a fixed offset.
///
/// Trusted: `OffsetDateTime::from_unix_timestamp_nanos` then `checked_to_offset`; both succeed
/// when the instant and its local view fall in years -9999 through 9999, and the fields are the
/// proleptic Gregorian civil time (floor division of the Unix time).
#[verifier::external_body]
pub(crate) fn local_time(unix_nanos: i128, offset_seconds: i32) -> (r: Option<LocalTime>)
    requires
        -86400 < offset_seconds < 86400,
    ensures
        in_time_range(unix_nanos as int, offset_seconds as int) ==> r is Some,
        r matches Some(lt) ==> lt == local_time_of(unix_nanos as int, offset_seconds as int),
        r matches Some(lt) ==> lt.date.wf() && lt.hour < 24 && lt.minute < 60 && lt.second < 60
            && lt.weekday < 7,
{
    let offset = UtcOffset::from_whole_seconds(offset_seconds).ok()?;
    let t = OffsetDateTime::from_unix_timestamp_nanos(unix_nanos).ok()?.checked_to_offset(offset)?;
    Some(LocalTime {
        date: CivilDate { year: t.year(), month: t.month() as u8, day: t.day() },
        hour: t.hour(),
        minute: t.minute(),
        second: t.second(),
        weekday: t.weekday().number_days_from_monday(),
    })
}


/// The calendar day before `d` (unchanged at the first representable day).
pub open spec fn prev_date(d: CivilDate) -> CivilDate {
    if d.day > 1 {
        CivilDate { day: (d.day - 1) as u8, ..d }
    } else if d.month > 1 {
        CivilDate {
            month: (d.month - 1) as u8,
            day: month_days(d.year as int, d.month - 1) as u8,
            ..d
        }
    } else if d.year > -9999 {
        CivilDate { year: (d.year - 1) as i32, month: 12, day: 31 }
    } else {
        d
    }
}

/// The calendar day after `d` (unchanged at the last representable day).
pub open spec fn next_date(d: CivilDate) -> CivilDate {
    if (d.day as int) < month_days(d.year as int, d.month as int) {
        CivilDate { day: (d.day + 1) as u8, ..d }
    } else if d.month < 12 {
        CivilDate { month: (d.month + 1) as u8, day: 1, ..d }
    } else if d.year < 9999 {
        CivilDate { year: (d.year + 1) as i32, month: 1, day: 1 }
    } else {
        d
    }
}

/// A holiday falling on Saturday is observed on Friday, one on Sunday on Monday.
pub open spec fn observed_date(d: CivilDate) -> CivilDate {
    if weekday_of(d) == 5 {
        prev_date(d)
    } else if weekday_of(d) == 6 {
        next_date(d)
    } else {
        d
    }
}

/// `d` is the `n`-th weekday `wd` (Monday = 0) of month `m`.
pub open spec fn is_nth_weekday(d: CivilDate, m: int, wd: int, n: int) -> bool {
    &&& d.month == m
    &&& weekday_of(d) == wd
    &&& (d.day - 1) / 7 == n - 1
}

/// `d` is the last weekday `wd` of month `m`.
pub open spec fn is_last_weekday(d: CivilDate, m: int, wd: int) -> bool {
    &&& d.month == m
    &&& weekday_of(d) == wd
    &&& d.day + 7 > month_days(d.year as int, m)
}

/// Truncating division and remainder (Rust's `/` and `%` on signed integers), for `b > 0`.
pub open spec fn tdiv(a: int, b: int) -> int {
    if a >= 0 {
        a / b
    } else {
        -((-a) / b)
    }
}

pub open spec fn tmod(a: int, b: int) -> int {
    a - b * tdiv(a, b)
}

/// Month and day of Easter Sunday by the Anonymous Gregorian computus.
pub open spec fn easter_month_day(year: int) -> (int, int) {
    let a = tmod(year, 19);
    let b = tdiv(year, 100);
    let c = tmod(year, 100);
    let d = tdiv(b, 4);
    let e = tmod(b, 4);
    let f = tdiv(b + 8, 25);
    let g = tdiv(b - f + 1, 3);
    let h = tmod(19 * a + b - d - g + 15, 30);
    let i = tdiv(c, 4);
    let k = tmod(c, 4);
    let l = tmod(32 + 2 * e + 2 * i - h - k, 7);
    let m = tdiv(a + 11 * h + 22 * l, 451);
    (tdiv(h + l - 7 * m + 114, 31), tmod(h + l - 7 * m + 114, 31) + 1)
}

/// Good Friday: two days before Easter Sunday, when Easter is a representable date.
pub open spec fn good_friday_date(year: int) -> Option<CivilDate> {
    let (m, d) = easter_month_day(year);
    if 1 <= m <= 12 && 0 <= d < 256 && valid_date(year, m, d) {
        Some(prev_date(prev_date(CivilDate { year: year as i32, month: m as u8, day: d as u8 })))
    } else {
        None
    }
}

/// Full NYSE holidays: New Year's Day, Independence Day and Christmas (observed), Juneteenth
/// (observed, from 2022), MLK Day, Washington's Birthday, Memorial Day, Labor Day,
/// Thanksgiving and Good Friday.
pub open spec fn us_holiday(date: CivilDate) -> bool {
    let y = date.year;
    ||| date == observed_date(CivilDate { year: y, month: 1, day: 1 })
    ||| date == observed_date(CivilDate { year: y, month: 7, day: 4 })
    ||| date == observed_date(CivilDate { year: y, month: 12, day: 25 })
    ||| y >= 2022 && date == observed_date(CivilDate { year: y, month: 6, day: 19 })
    ||| is_nth_weekday(date, 1, 0, 3)
    ||| is_nth_weekday(date, 2, 0, 3)
    ||| is_last_weekday(date, 5, 0)
    ||| is_nth_weekday(date, 9, 0, 1)
    ||| is_nth_weekday(date, 11, 3, 4)
    ||| good_friday_date(y as int) == Some(date)
}

proof fn lemma_days_linear(y: int, m: int, d: int)
    ensures
        days_from_civil(y, m, d) == days_from_civil(y, m, 1) + d - 1,
{
}

proof fn lemma_weekday_step(y: i32, m: u8, d1: u8, d2: u8)
    requires
        d1 <= d2,
    ensures
        weekday_of(CivilDate { year: y, month: m, day: d2 }) == (weekday_of(
            CivilDate { year: y, month: m, day: d1 },
        ) + (d2 - d1)) % 7,
{
    lemma_days_linear(y as int, m as int, d1 as int);
    lemma_days_linear(y as int, m as int, d2 as int);
    let base = days_from_civil(y as int, m as int, d1 as int) + 3;
    let k = (d2 - d1) as int;
    lemma_add_mod_noop(base, k, 7);
    lemma_add_mod_noop(base % 7, k, 7);
    lemma_mod_twice(base, 7);
}

proof fn lemma_same_week_slot(y: i32, m: u8, d1: u8, d2: u8)
    requires
        1 <= d1,
        1 <= d2,
        weekday_of(CivilDate { year: y, month: m, day: d1 }) == weekday_of(
            CivilDate { year: y, month: m, day: d2 },
        ),
        (d1 - 1) / 7 == (d2 - 1) / 7,
    ensures
        d1 == d2,
{
    if d1 < d2 {
        lemma_weekday_step(y, m, d1, d2);
        let w = weekday_of(CivilDate { year: y, month: m, day: d1 });
        let k = (d2 - d1) as int;
        assert(0 < k < 7) by (nonlinear_arith)
            requires
                (d1 - 1) / 7 == (d2 - 1) / 7,
                d1 < d2,
                1 <= d1,
                k == d2 - d1,
        ;
        assert((w + k) % 7 != w);
    } else if d2 < d1 {
        lemma_weekday_step(y, m, d2, d1);
        let w = weekday_of(CivilDate { year: y, month: m, day: d2 });
        let k = (d1 - d2) as int;
        assert(0 < k < 7) by (nonlinear_arith)
            requires
                (d1 - 1) / 7 == (d2 - 1) / 7,
                d2 < d1,
                1 <= d2,
                k == d1 - d2,
        ;
        assert((w + k) % 7 != w);
    }
}

/// The day before `d`.
fn prev_day(d: CivilDate) -> (r: CivilDate)
    requires
        d.wf(),
    ensures
        r == prev_date(d),
        r.wf(),
{
    if d.day > 1 {
        CivilDate { day: d.day - 1, ..d }
    } else if d.month > 1 {
        let len = days_in_month(d.year, d.month - 1);
        CivilDate { month: d.month - 1, day: len, ..d }
    } else if d.year > -9999 {
        CivilDate { year: d.year - 1, month: 12, day: 31 }
    } else {
        d
    }
}

/// The day after `d`.
fn next_day(d: CivilDate) -> (r: CivilDate)
    requires
        d.wf(),
    ensures
        r == next_date(d),
        r.wf(),
{
    let len = days_in_month(d.year, d.month);
    if d.day < len {
        CivilDate { day: d.day + 1, ..d }
    } else if d.month < 12 {
        CivilDate { month: d.month + 1, day: 1, ..d }
    } else if d.year < 9999 {
        CivilDate { year: d.year + 1, month: 1, day: 1 }
    } else {
        d
    }
}

/// Shift a weekend holiday to the observed weekday (Saturday to Friday, Sunday to Monday).
fn observed(d: CivilDate) -> (r: CivilDate)
    requires
        d.wf(),
    ensures
        r == observed_date(d),
        r.wf(),
{
    let w = weekday(d);
    if w == 5 {
        prev_day(d)
    } else if w == 6 {
        next_day(d)
    } else {
        d
    }
}

/// The `n`-th weekday `wd` of a month.
fn nth_weekday(year: i32, month: u8, wd: u8, n: u8) -> (r: Option<CivilDate>)
    requires
        1 <= month <= 12,
        wd < 7,
        1 <= n <= 4,
    ensures
        (-9999 <= year <= 9999) == r is Some,
        r matches Some(x) ==> x.wf() && x.year == year && is_nth_weekday(x, month as int, wd as int, n as int),
{
    if !date_exists(year, month, 1) {
        return None;
    }
    let first = CivilDate { year, month, day: 1 };
    let fw = weekday(first);
    let offset = (wd + 7 - fw) % 7;
    let day = 1 + offset + (n - 1) * 7;
    let x = CivilDate { year, month, day };
    proof {
        lemma_weekday_step(year, month, 1, day);
        assert((fw + offset) % 7 == wd);
        assert(day <= 28);
    }
    if date_exists(year, month, day) {
        Some(x)
    } else {
        None
    }
}

/// The last weekday `wd` of a month.
fn last_weekday(year: i32, month: u8, wd: u8) -> (r: Option<CivilDate>)
    requires
        1 <= month <= 12,
        wd < 7,
    ensures
        (-9999 <= year <= 9999) == r is Some,
        r matches Some(x) ==> x.wf() && x.year == year && is_last_weekday(x, month as int, wd as int),
{
    let len = days_in_month(year, month);
    if !date_exists(year, month, len) {
        return None;
    }
    let last = CivilDate { year, month, day: len };
    let lw = weekday(last);
    let back = (lw + 7 - wd) % 7;
    let x = CivilDate { year, month, day: len - back };
    proof {
        lemma_weekday_step(year, month, (len - back) as u8, len);
        let w = weekday_of(x);
        assert(0 <= w < 7);
        assert((w + back) % 7 == lw);
        assert(w == wd) by (nonlinear_arith)
            requires
                0 <= w < 7,
                0 <= back < 7,
                0 <= wd < 7,
                (w + back) % 7 == lw,
                back == (lw + 7 - wd) % 7,
                0 <= lw < 7,
        ;
    }
    Some(x)
}

/// Rust's truncating `a / b` and `a % b` for `b > 0`.
fn tdiv_mod(a: i32, b: i32) -> (r: (i32, i32))
    requires
        b > 0,
        -100_000_000 < a < 100_000_000,
    ensures
        r.0 == tdiv(a as int, b as int),
        r.1 == tmod(a as int, b as int),
{
    let q: i32 = if a >= 0 {
        a / b
    } else {
        -((-a) / b)
    };
    proof {
        let ai = a as int;
        let bi = b as int;
        let qi = q as int;
        if a >= 0 {
            assert(0 <= ai / bi <= ai) by (nonlinear_arith) requires ai >= 0, bi > 0;
        } else {
            assert(0 <= (-ai) / bi <= -ai) by (nonlinear_arith) requires ai < 0, bi > 0;
        }
        assert(-100_000_000 < ai - bi * qi < 100_000_000) by (nonlinear_arith)
            requires
                bi > 0,
                -100_000_000 < ai < 100_000_000,
                ai >= 0 ==> qi == ai / bi,
                ai < 0 ==> qi == -((-ai) / bi),
        ;
    }
    (q, a - b * q)
}

/// Good Friday of `year` (two days before the computus Easter Sunday).
fn good_friday(year: i32) -> (r: Option<CivilDate>)
    requires
        -9999 <= year <= 9999,
    ensures
        r == good_friday_date(year as int),
        r matches Some(x) ==> x.wf(),
{
    let (month_num, day) = easter(year);
    if month_num < 1 || month_num > 12 || day < 0 || day >= 256 {
        return None;
    }
    if !date_exists(year, month_num as u8, day as u8) {
        return None;
    }
    let easter = CivilDate { year, month: month_num as u8, day: day as u8 };
    let p = prev_day(easter);
    Some(prev_day(p))
}

/// Easter Sunday's month and day by the Anonymous Gregorian computus.
#[verifier::rlimit(60)]
fn easter(year: i32) -> (r: (i32, i32))
    requires
        -9999 <= year <= 9999,
    ensures
        r.0 == easter_month_day(year as int).0,
        r.1 == easter_month_day(year as int).1,
{
    let a = tdiv_mod(year, 19).1;
    let b = tdiv_mod(year, 100).0;
    let c = tdiv_mod(year, 100).1;
    let d = tdiv_mod(b, 4).0;
    let e = tdiv_mod(b, 4).1;
    let f = tdiv_mod(b + 8, 25).0;
    let g = tdiv_mod(b - f + 1, 3).0;
    let h = tdiv_mod(19 * a + b - d - g + 15, 30).1;
    let i = tdiv_mod(c, 4).0;
    let k = tdiv_mod(c, 4).1;
    let l = tdiv_mod(32 + 2 * e + 2 * i - h - k, 7).1;
    let m = tdiv_mod(a + 11 * h + 22 * l, 451).0;
    let month_num = tdiv_mod(h + l - 7 * m + 114, 31).0;
    let day = tdiv_mod(h + l - 7 * m + 114, 31).1 + 1;
    (month_num, day)
}


/// `h == date` exactly when `date` has the defining property of the n-th weekday.
proof fn lemma_nth_match(h: CivilDate, date: CivilDate, m: int, wd: int, n: int)
    requires
        h.year == date.year,
        date.wf(),
        h.wf(),
        is_nth_weekday(h, m, wd, n),
    ensures
        (h == date) == is_nth_weekday(date, m, wd, n),
{
    if is_nth_weekday(date, m, wd, n) {
        lemma_same_week_slot(h.year, h.month, h.day, date.day);
    }
}

proof fn lemma_last_match(h: CivilDate, date: CivilDate, m: int, wd: int)
    requires
        h.year == date.year,
        date.wf(),
        h.wf(),
        is_last_weekday(h, m, wd),
    ensures
        (h == date) == is_last_weekday(date, m, wd),
{
    if is_last_weekday(date, m, wd) {
        if h.day < date.day {
            lemma_weekday_step(h.year, h.month, h.day, date.day);
            let k = date.day - h.day;
            assert(0 < k < 7);
            assert((wd + k) % 7 != wd);
        } else if date.day < h.day {
            lemma_weekday_step(h.year, h.month, date.day, h.day);
            let k = h.day - date.day;
            assert(0 < k < 7);
            assert((wd + k) % 7 != wd);
        }
    }
}

/// True when `date` is a full NYSE market holiday (see `us_holiday`).
pub fn is_us_market_holiday(date: CivilDate) -> (r: bool)
    requires
        date.wf(),
    ensures
        r == us_holiday(date),
{
    let year = date.year;
    let jan1 = observed(CivilDate { year, month: 1, day: 1 });
    let jul4 = observed(CivilDate { year, month: 7, day: 4 });
    let dec25 = observed(CivilDate { year, month: 12, day: 25 });
    if jan1 == date || jul4 == date || dec25 == date {
        return true;
    }
    if year >= 2022 {
        let jun19 = observed(CivilDate { year, month: 6, day: 19 });
        if jun19 == date {
            return true;
        }
    }
    let mlk = nth_weekday(year, 1, 0, 3).unwrap();
    let washington = nth_weekday(year, 2, 0, 3).unwrap();
    let memorial = last_weekday(year, 5, 0).unwrap();
    let labor = nth_weekday(year, 9, 0, 1).unwrap();
    let thanksgiving = nth_weekday(year, 11, 3, 4).unwrap();
    proof {
        lemma_nth_match(mlk, date, 1, 0, 3);
        lemma_nth_match(washington, date, 2, 0, 3);
        lemma_last_match(memorial, date, 5, 0);
        lemma_nth_match(labor, date, 9, 0, 1);
        lemma_nth_match(thanksgiving, date, 11, 3, 4);
    }
    if mlk == date || washington == date || memorial == date || labor == date || thanksgiving
        == date {
        return true;
    }
    match good_friday(year) {
        Some(gf) => gf == date,
        None => false,
    }
}

/// Day of month of the `n`-th Sunday of month `m`.
pub open spec fn nth_sunday(y: int, m: int, n: int) -> int {
    1 + (6 - weekday_of(CivilDate { year: y as i32, month: m as u8, day: 1 }) + 7) % 7 + (n - 1) * 7
}

/// Day of month of the last Sunday of month `m`.
pub open spec fn last_sunday(y: int, m: int) -> int {
    let len = month_days(y, m);
    len - (weekday_of(CivilDate { year: y as i32, month: m as u8, day: len as u8 }) + 1) % 7
}

/// Month and day on which US daylight saving time starts: the second Sunday of March from
/// 2007, the first Sunday of April from 1987, the last Sunday of April before.
pub open spec fn dst_start(y: int) -> (int, int) {
    if y >= 2007 {
        (3, nth_sunday(y, 3, 2))
    } else if y >= 1987 {
        (4, nth_sunday(y, 4, 1))
    } else {
        (4, last_sunday(y, 4))
    }
}

/// Month and day on which US daylight saving time ends: the first Sunday of November from
/// 2007, the last Sunday of October before.
pub open spec fn dst_end(y: int) -> (int, int) {
    if y >= 2007 {
        (11, nth_sunday(y, 11, 1))
    } else {
        (10, last_sunday(y, 10))
    }
}

/// The UTC wall clock `u` is at or after second `secs` of the day `md` of its year.
pub open spec fn at_or_after(u: LocalTime, md: (int, int), secs: int) -> bool {
    ||| u.date.month > md.0
    ||| u.date.month == md.0 && u.date.day > md.1
    ||| u.date.month == md.0 && u.date.day == md.1 && seconds_of_day(u) >= secs
}

/// New York keeps daylight time at the UTC wall clock `u`: from 02:00 EST (07:00 UTC) on the
/// start day until 02:00 EDT (06:00 UTC) on the end day.
pub open spec fn new_york_dst(u: LocalTime) -> bool {
    &&& at_or_after(u, dst_start(u.date.year as int), 7 * 3600int)
    &&& !at_or_after(u, dst_end(u.date.year as int), 6 * 3600int)
}

/// UTC offset of America/New_York at an instant: UTC-4 in daylight time, UTC-5 otherwise.
pub open spec fn new_york_offset(unix_nanos: int) -> int {
    if new_york_dst(local_time_of(unix_nanos, 0)) {
        -14400
    } else {
        -18000
    }
}

/// The instant, and its New York wall clock under either offset, fall in the representable
/// years.
pub open spec fn session_time_ok(unix_nanos: int) -> bool {
    &&& in_time_range(unix_nanos, 0)
    &&& in_time_range(unix_nanos, -18000)
    &&& in_time_range(unix_nanos, -14400)
}

/// New York wall clock at an instant.
pub open spec fn new_york_time(unix_nanos: int) -> LocalTime {
    local_time_of(unix_nanos, new_york_offset(unix_nanos))
}

/// Seconds since local midnight.
pub open spec fn seconds_of_day(lt: LocalTime) -> int {
    lt.hour * 3600 + lt.minute * 60 + lt.second
}

/// US equity regular session: weekday, not a holiday, 09:30 <= New York time < 16:00.
pub open spec fn equity_rth_open_at(lt: LocalTime) -> bool {
    &&& lt.weekday < 5
    &&& !us_holiday(lt.date)
    &&& 9 * 3600 + 30 * 60 <= seconds_of_day(lt) < 16 * 3600
}

/// FX 24/5 session in New York time: closed Saturday, opens Sunday 17:00 and closes Friday
/// 17:00.
pub open spec fn forex_245_open_at(lt: LocalTime) -> bool {
    let hm = lt.hour * 3600 + lt.minute * 60;
    if lt.weekday == 5 {
        false
    } else if lt.weekday == 6 {
        hm >= 17 * 3600
    } else if lt.weekday == 4 {
        hm < 17 * 3600
    } else {
        true
    }
}

/// The sessions nest and keep the weekend shut: the equity regular session opens only on a
/// weekday that is not a US holiday, from 09:30 to before 16:00 New York time, and every instant
/// it is open the FX 24/5 session is open too; the FX session is shut all Saturday.
pub proof fn law_sessions_nest(lt: LocalTime)
    requires
        lt.minute < 60,
        lt.second < 60,
    ensures
        equity_rth_open_at(lt) ==> forex_245_open_at(lt),
        equity_rth_open_at(lt) ==> lt.weekday < 5 && !us_holiday(lt.date) && (lt.hour > 9 || (
        lt.hour == 9 && lt.minute >= 30)) && lt.hour < 16,
        lt.weekday == 5 ==> !forex_245_open_at(lt) && !equity_rth_open_at(lt),
        lt.weekday == 6 ==> !equity_rth_open_at(lt),
{
}

/// Whether a session is open at an instant.
pub open spec fn session_open_at(filter: SessionFilter, unix_nanos: int) -> bool {
    match filter {
        SessionFilter::Unfiltered => true,
        SessionFilter::EquityRth => equity_rth_open_at(new_york_time(unix_nanos)),
        SessionFilter::Forex245 => forex_245_open_at(new_york_time(unix_nanos)),
    }
}

/// Day of month of the `n`-th Sunday of a month.
fn nth_sunday_day(year: i32, month: u8, n: u8) -> (r: u8)
    requires
        -9999 <= year <= 9999,
        1 <= month <= 12,
        1 <= n <= 2,
    ensures
        r as int == nth_sunday(year as int, month as int, n as int),
{
    let first = CivilDate { year, month, day: 1 };
    assert(first.wf());
    let w = weekday(first);
    1 + (6 - w + 7) % 7 + (n - 1) * 7
}

/// Day of month of the last Sunday of a month.
fn last_sunday_day(year: i32, month: u8) -> (r: u8)
    requires
        -9999 <= year <= 9999,
        1 <= month <= 12,
    ensures
        r as int == last_sunday(year as int, month as int),
{
    let len = days_in_month(year, month);
    let last = CivilDate { year, month, day: len };
    assert(28 <= len <= 31);
    assert(last.wf());
    let w = weekday(last);
    len - (w + 1) % 7
}

/// Whether the UTC wall clock is at or after a second of a given day of its year.
fn clock_at_or_after(u: &LocalTime, month: u8, day: u8, secs: u32) -> (r: bool)
    requires
        u.hour < 24 && u.minute < 60 && u.second < 60,
    ensures
        r == at_or_after(*u, (month as int, day as int), secs as int),
{
    let sod = u.hour as u32 * 3600 + u.minute as u32 * 60 + u.second as u32;
    u.date.month > month || (u.date.month == month && u.date.day > day) || (u.date.month == month
        && u.date.day == day && sod >= secs)
}

/// New York wall clock at an instant, with US daylight saving time.
pub fn new_york_local_time(unix_nanos: i128) -> (r: LocalTime)
    requires
        session_time_ok(unix_nanos as int),
    ensures
        r == new_york_time(unix_nanos as int),
        r.date.wf() && r.hour < 24 && r.minute < 60 && r.second < 60 && r.weekday < 7,
{
    let u = local_time(unix_nanos, 0).unwrap();
    let y = u.date.year;
    assert(-9999 <= y <= 9999);
    let (sm, sd) = if y >= 2007 {
        (3u8, nth_sunday_day(y, 3, 2))
    } else if y >= 1987 {
        (4u8, nth_sunday_day(y, 4, 1))
    } else {
        (4u8, last_sunday_day(y, 4))
    };
    let (em, ed) = if y >= 2007 {
        (11u8, nth_sunday_day(y, 11, 1))
    } else {
        (10u8, last_sunday_day(y, 10))
    };
    let dst = clock_at_or_after(&u, sm, sd, 7 * 3600) && !clock_at_or_after(&u, em, ed, 6 * 3600);
    let offset: i32 = if dst {
        -14400
    } else {
        -18000
    };
    local_time(unix_nanos, offset).unwrap()
}

pub fn equity_rth_open(unix_nanos: i128) -> (r: bool)
    requires
        session_time_ok(unix_nanos as int),
    ensures
        r == equity_rth_open_at(new_york_time(unix_nanos as int)),
{
    let lt = new_york_local_time(unix_nanos);
    if lt.weekday >= 5 {
        return false;
    }
    if is_us_market_holiday(lt.date) {
        return false;
    }
    let secs = lt.hour as u32 * 3600 + lt.minute as u32 * 60 + lt.second as u32;
    let open: u32 = 9 * 3600 + 30 * 60;
    let close: u32 = 16 * 3600;
    secs >= open && secs < close
}

pub fn forex_245_open(unix_nanos: i128) -> (r: bool)
    requires
        session_time_ok(unix_nanos as int),
    ensures
        r == forex_245_open_at(new_york_time(unix_nanos as int)),
{
    let lt = new_york_local_time(unix_nanos);
    let hm = lt.hour as u32 * 3600 + lt.minute as u32 * 60;
    if lt.weekday == 5 {
        false
    } else if lt.weekday == 6 {
        hm >= 17 * 3600
    } else if lt.weekday == 4 {
        hm < 17 * 3600
    } else {
        true
    }
}

/// Whether the instant `unix_nanos` (Unix nanoseconds) falls inside the configured session.
pub fn is_session_open(filter: SessionFilter, unix_nanos: i128) -> (r: bool)
    requires
        filter != SessionFilter::Unfiltered ==> session_time_ok(unix_nanos as int),
    ensures
        r == session_open_at(filter, unix_nanos as int),
{
    match filter {
        SessionFilter::Unfiltered => true,
        SessionFilter::EquityRth => equity_rth_open(unix_nanos),
        SessionFilter::Forex245 => forex_245_open(unix_nanos),
    }
}

/// Filter helper for timestamped rows.
pub fn filter_bar_timestamp(filter: SessionFilter, unix_nanos: i128) -> (r: bool)
    requires
        filter != SessionFilter::Unfiltered ==> session_time_ok(unix_nanos as int),
    ensures
        r == session_open_at(filter, unix_nanos as int),
{
    is_session_open(filter, unix_nanos)
}

/// The session a (trimmed, lower-cased) configuration name selects; anything else is no filter.
pub open spec fn session_alias(l: Seq<char>) -> SessionFilter {
    if l == "equity"@ || l == "equity_rth"@ || l == "rth"@ || l == "nyse"@ {
        SessionFilter::EquityRth
    } else if l == "forex"@ || l == "forex_245"@ || l == "fx"@ || l == "24_5"@ {
        SessionFilter::Forex245
    } else {
        SessionFilter::Unfiltered
    }
}

impl SessionFilter {
    /// Parse from a configuration string (`none`, `equity_rth`, `forex_245`, and aliases).
    pub fn parse(s: &str) -> (r: SessionFilter)
        ensures
            r == session_alias(unicode_lowercase(trim(s@))),
            all_ascii(trim(s@)) ==> r == session_alias(ascii_lower(trim(s@))),
    {
        let cs = chars_of(s);
        let t = trim_chars(&cs);
        let ts = crate::text::string_of(&t);
        let l = to_lowercase(ts.as_str());
        let lc = chars_of(l.as_str());
        if chars_eq(&lc, "equity") || chars_eq(&lc, "equity_rth") || chars_eq(&lc, "rth")
            || chars_eq(&lc, "nyse") {
            SessionFilter::EquityRth
        } else if chars_eq(&lc, "forex") || chars_eq(&lc, "forex_245") || chars_eq(&lc, "fx")
            || chars_eq(&lc, "24_5") {
            SessionFilter::Forex245
        } else {
            SessionFilter::Unfiltered
        }
    }
}

} // verus!
