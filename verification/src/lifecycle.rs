//! Scheduled cash-flow calendar: perpetual funding windows, bond coupon dates and option expiry.

use crate::calendar::{in_time_range, local_time, local_time_of, CivilDate, LocalTime};
use crate::decimal::Dec;
use time::format_description;
use time::Date;
use vstd::prelude::*;

verus! {

/// Default 8h perpetual funding rate when none is configured (0.01%).
pub fn default_perp_funding_rate_8h() -> (r: Dec)
    ensures
        r == (Dec { mantissa: 1, scale: 4 }),
        r.wf(),
{
    Dec::new(1, 4)
}

/// An instant given as Unix nanoseconds seen at a UTC offset, both in the representable range.
pub open spec fn valid_instant(unix_nanos: int, offset_seconds: int) -> bool {
    -86400 < offset_seconds < 86400 && in_time_range(unix_nanos, offset_seconds)
}

/// Funding settles on the 00:00, 08:00 and 16:00 boundaries, to the second.
pub open spec fn funding_time_at(lt: LocalTime) -> bool {
    (lt.hour == 0 || lt.hour == 8 || lt.hour == 16) && lt.minute == 0 && lt.second == 0
}

/// Whether a bar at this instant is a perpetual funding boundary (00:00, 08:00 or 16:00 on the
/// clock of its offset).
pub fn is_funding_time(unix_nanos: i128, offset_seconds: i32) -> (r: bool)
    requires
        valid_instant(unix_nanos as int, offset_seconds as int),
    ensures
        r == funding_time_at(local_time_of(unix_nanos as int, offset_seconds as int)),
{
    match local_time(unix_nanos, offset_seconds) {
        Some(lt) => (lt.hour == 0 || lt.hour == 8 || lt.hour == 16) && lt.minute == 0 && lt.second
            == 0,
        None => false,
    }
}

/// Coupon dates: the first of June and December for two payments a year, the first of each
/// quarter's last month for four, and the first of every month otherwise; none for zero
/// payments.
pub open spec fn coupon_date_at(d: CivilDate, payments_per_year: u32) -> bool {
    if payments_per_year == 0 {
        false
    } else if payments_per_year == 2 {
        (d.month == 6 || d.month == 12) && d.day == 1
    } else if payments_per_year == 4 {
        (d.month == 3 || d.month == 6 || d.month == 9 || d.month == 12) && d.day == 1
    } else {
        d.day == 1
    }
}

/// Whether a bond pays a coupon on the date of this instant.
pub fn is_coupon_date(unix_nanos: i128, offset_seconds: i32, payments_per_year: u32) -> (r: bool)
    requires
        valid_instant(unix_nanos as int, offset_seconds as int),
    ensures
        r == coupon_date_at(local_time_of(unix_nanos as int, offset_seconds as int).date, payments_per_year),
{
    if payments_per_year == 0 {
        return false;
    }
    let lt = match local_time(unix_nanos, offset_seconds) {
        Some(lt) => lt,
        None => {
            return false;
        },
    };
    let month = lt.date.month;
    let day = lt.date.day;
    if payments_per_year == 2 {
        (month == 6 || month == 12) && day == 1
    } else if payments_per_year == 4 {
        (month == 3 || month == 6 || month == 9 || month == 12) && day == 1
    } else {
        day == 1
    }
}

/// The date `time` reads from a `[year]-[month]-[day]` text, when it accepts the text.
pub uninterp spec fn iso_date(s: Seq<char>) -> Option<CivilDate>;

/// Read a `[year]-[month]-[day]` date.
///
/// Trusted: `time::Date::parse` with the format description `[year]-[month]-[day]`; the dates
/// it accepts are named by `iso_date`, and each is a valid calendar date.
#[verifier::external_body]
pub(crate) fn parse_iso_date(s: &str) -> (r: Option<CivilDate>)
    ensures
        r == iso_date(s@),
        r matches Some(d) ==> d.wf(),
{
    let fmt = format_description::parse_borrowed::<2>("[year]-[month]-[day]").ok()?;
    let d = Date::parse(s, &fmt).ok()?;
    Some(CivilDate { year: d.year(), month: d.month() as u8, day: d.day() })
}

/// `a` is on or after `b`.
pub open spec fn date_on_or_after(a: CivilDate, b: CivilDate) -> bool {
    a.year > b.year || (a.year == b.year && (a.month > b.month || (a.month == b.month && a.day
        >= b.day)))
}

/// An option has expired on the date of this instant when its expiry text reads as a date on
/// or before it.
pub open spec fn expired_at(d: CivilDate, expiry: Option<Seq<char>>) -> bool {
    match expiry {
        Some(e) => match iso_date(e) {
            Some(x) => date_on_or_after(d, x),
            None => false,
        },
        None => false,
    }
}

/// Whether an option with this expiry has expired by the date of this instant.
pub fn option_expired_on(unix_nanos: i128, offset_seconds: i32, expiry: Option<&str>) -> (r: bool)
    requires
        valid_instant(unix_nanos as int, offset_seconds as int),
    ensures
        r == expired_at(
            local_time_of(unix_nanos as int, offset_seconds as int).date,
            match expiry {
                Some(e) => Some(e@),
                None => None,
            },
        ),
{
    let exp = match expiry {
        Some(e) => e,
        None => {
            return false;
        },
    };
    let x = match parse_iso_date(exp) {
        Some(x) => x,
        None => {
            return false;
        },
    };
    let d = match local_time(unix_nanos, offset_seconds) {
        Some(lt) => lt.date,
        None => {
            return false;
        },
    };
    d.year > x.year || (d.year == x.year && (d.month > x.month || (d.month == x.month && d.day
        >= x.day)))
}

/// Funding settles every eight hours from midnight, on the exact boundary: the funding times of
/// a day are exactly the whole hours divisible by eight, at minute and second zero.
pub proof fn law_funding_every_eight_hours(lt: LocalTime)
    requires
        lt.hour < 24,
    ensures
        funding_time_at(lt) <==> (lt.hour % 8 == 0 && lt.minute == 0 && lt.second == 0),
{
}

/// Coupon schedules nest: a semiannual coupon date (first of June or December) is also a
/// quarterly one, a quarterly date is a monthly one, and every coupon date is the first of its
/// month.
pub proof fn law_coupon_schedules_nest(d: CivilDate, payments_per_year: u32)
    ensures
        coupon_date_at(d, 2) ==> coupon_date_at(d, 4),
        coupon_date_at(d, 4) ==> coupon_date_at(d, 12),
        coupon_date_at(d, payments_per_year) ==> d.day == 1,
        coupon_date_at(d, 2) <==> (d.day == 1 && (d.month == 6 || d.month == 12)),
{
}

/// An option is expired on its expiry date and stays expired on every later date; before the
/// expiry date it is not expired.
pub proof fn law_expiry_is_permanent(d1: CivilDate, d2: CivilDate, expiry: Seq<char>)
    ensures
        iso_date(expiry) matches Some(x) ==> expired_at(x, Some(expiry)),
        expired_at(d1, Some(expiry)) && date_on_or_after(d2, d1) ==> expired_at(d2, Some(expiry)),
        iso_date(expiry) matches Some(x) ==> (expired_at(d1, Some(expiry)) <==> date_on_or_after(
            d1,
            x,
        )),
{
}

} // verus!
