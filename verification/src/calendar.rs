//! Days and dates. A day goes by its Julian day number, a point in time by its nanoseconds since the
//! Unix epoch.
use vstd::prelude::*;
use crate::model::is_instant;
use crate::text::decimal;

verus! {

/// The nanoseconds of a day.
pub const DAY_NANOS: i128 = 86_400_000_000_000;

/// The nanoseconds of an hour.
pub const HOUR_NANOS: i128 = 3_600_000_000_000;

/// The day of the Unix epoch, 1970-01-01.
pub const EPOCH_DAY: i32 = 2_440_588;

/// The first day that a date can name, in the year -9999.
pub const MIN_DAY: i32 = -1_930_999;

/// The last day that a date can name, in the year 9999.
pub const MAX_DAY: i32 = 5_373_484;

/// Whether a number is that of a day.
pub open spec fn is_day(day: int) -> bool {
    MIN_DAY <= day <= MAX_DAY
}

pub open spec fn is_leap(year: int) -> bool {
    year % 4 == 0 && (year % 100 != 0 || year % 400 == 0)
}

/// The days of a year before the first of a month.
pub open spec fn days_before_month(year: int, month: int) -> int {
    let feb = if is_leap(year) {
        29int
    } else {
        28int
    };
    if month <= 1 {
        0
    } else if month == 2 {
        31
    } else if month == 3 {
        31 + feb
    } else if month == 4 {
        62 + feb
    } else if month == 5 {
        92 + feb
    } else if month == 6 {
        123 + feb
    } else if month == 7 {
        153 + feb
    } else if month == 8 {
        184 + feb
    } else if month == 9 {
        215 + feb
    } else if month == 10 {
        245 + feb
    } else if month == 11 {
        276 + feb
    } else if month == 12 {
        306 + feb
    } else {
        337 + feb
    }
}

/// The days from the first day of the year 1 to the first of `year`, which is negative before.
pub open spec fn days_before_year(year: int) -> int {
    365 * (year - 1) + (year - 1) / 4 - (year - 1) / 100 + (year - 1) / 400
}

/// The day that a date of the Gregorian calendar names.
pub open spec fn julian(year: int, month: int, day: int) -> int {
    days_before_year(year) + days_before_month(year, month) + day + 1_721_425
}

/// Whether year, month and day make a date.
pub open spec fn is_date(year: int, month: int, day: int) -> bool {
    &&& -9999 <= year <= 9999
    &&& 1 <= month <= 12
    &&& 1 <= day <= days_before_month(year, month + 1) - days_before_month(year, month)
}

/// Whether `day` is the day of the given date.
pub open spec fn is_date_of(day: int, year: int, month: int, dom: int) -> bool {
    is_date(year, month, dom) && julian(year, month, dom) == day
}

/// `time::Date::to_calendar_date`, on the date that `from_julian_day` gives: the year, month and day of
/// the month of a day.
#[verifier::external_body]
pub(crate) fn date_of_day(day: i32) -> (r: (i32, u8, u8))
    requires
        is_day(day as int),
    ensures
        is_date_of(day as int, r.0 as int, r.1 as int, r.2 as int),
{
    let (y, m, d) = time::Date::from_julian_day(day).unwrap().to_calendar_date();
    (y, u8::from(m), d)
}

/// `time::Date::from_calendar_date`, read back by `to_julian_day`: the day of a date.
#[verifier::external_body]
pub(crate) fn day_of_date(year: i32, month: u8, dom: u8) -> (r: i32)
    requires
        is_date(year as int, month as int, dom as int),
    ensures
        r == julian(year as int, month as int, dom as int),
{
    let m = time::Month::try_from(month).unwrap();
    time::Date::from_calendar_date(year, m, dom).unwrap().to_julian_day()
}

/// `time::Date::weekday`, on the date that `from_julian_day` gives: how many days a day comes after the
/// last Sunday.
#[verifier::external_body]
pub(crate) fn days_from_sunday(day: i32) -> (r: u8)
    requires
        is_day(day as int),
    ensures
        r == (day + 1) % 7,
{
    time::Date::from_julian_day(day).unwrap().weekday().number_days_from_sunday()
}

/// The Thursday of the week, Monday to Sunday, that a day falls in.
pub open spec fn thursday_of(day: int) -> int {
    day - day % 7 + 3
}

/// `time::Date::to_iso_week_date`, on the date that `from_julian_day` gives: the ISO year and week of a
/// day. A week belongs to the year that its Thursday falls in, and is numbered by that Thursday.
#[verifier::external_body]
pub(crate) fn iso_week_of_day(day: i32) -> (r: (i32, u8))
    requires
        is_day(day as int),
    ensures
        -10_000 <= r.0 <= 10_000,
        julian(r.0 as int, 1, 1) <= thursday_of(day as int) < julian(r.0 + 1, 1, 1),
        r.1 == (thursday_of(day as int) - julian(r.0 as int, 1, 1)) / 7 + 1,
{
    let (year, week, _) = time::Date::from_julian_day(day).unwrap().to_iso_week_date();
    (year, week)
}

// ---- Points in time ---------------------------------------------------------------------------

/// The day that a point in time falls in, in UTC.
pub open spec fn day_at(t: int) -> int {
    t / (DAY_NANOS as int) + EPOCH_DAY
}

/// The start of a day, in UTC.
pub open spec fn midnight(day: int) -> int {
    (day - EPOCH_DAY) * DAY_NANOS
}

/// The day that a point in time falls in, in UTC.
pub fn day_of(t: i128) -> (r: i32)
    requires
        is_instant(t),
    ensures
        r == day_at(t as int),
        is_day(r as int),
{
    let days: i128 = if t >= 0 {
        t / DAY_NANOS
    } else {
        -((DAY_NANOS - 1 - t) / DAY_NANOS)
    };
    (days + EPOCH_DAY as i128) as i32
}

// ---- One date for each day --------------------------------------------------------------------

/// A year has its days, and the years follow each other.
proof fn years_follow(y: int, z: int)
    requires
        y < z,
    ensures
        days_before_year(y) + (if is_leap(y) {
            366int
        } else {
            365int
        }) <= days_before_year(z),
        z == y + 1 ==> days_before_year(z) == days_before_year(y) + (if is_leap(y) {
            366int
        } else {
            365int
        }),
    decreases z - y,
{
    assert(days_before_year(y + 1) - days_before_year(y) == 365 + y / 4 - (y - 1) / 4 - y / 100 + (y
        - 1) / 100 + y / 400 - (y - 1) / 400);
    if z > y + 1 {
        years_follow(y, z - 1);
        years_follow(z - 1, z);
    }
}

/// The first day of the next year comes no later than that of any later one.
pub proof fn new_years_follow(y: int, z: int)
    requires
        y < z,
    ensures
        julian(y + 1, 1, 1) <= julian(z, 1, 1),
{
    if y + 1 < z {
        years_follow(y + 1, z);
    }
}

/// A later date names a later day.
pub proof fn dates_are_ordered(y: int, m: int, d: int, y2: int, m2: int, d2: int)
    requires
        is_date(y, m, d),
        is_date(y2, m2, d2),
        y < y2 || (y == y2 && (m < m2 || (m == m2 && d < d2))),
    ensures
        julian(y, m, d) < julian(y2, m2, d2),
{
    if y < y2 {
        years_follow(y, y2);
        assert(days_before_month(y, m) + d <= days_before_month(y, 13));
        assert(days_before_month(y2, m2) >= 0);
    } else if m < m2 {
        assert(days_before_month(y, m + 1) <= days_before_month(y, m2));
    }
}

/// Every date names a day.
pub proof fn dates_lie_in_range(y: int, m: int, d: int)
    requires
        is_date(y, m, d),
    ensures
        is_day(julian(y, m, d)),
{
    if !(y == -9999 && m == 1 && d == 1) {
        dates_are_ordered(-9999, 1, 1, y, m, d);
    }
    if !(y == 9999 && m == 12 && d == 31) {
        dates_are_ordered(y, m, d, 9999, 12, 31);
    }
}

/// The first of a month before December is a day with at least four weeks after it.
pub proof fn months_start_in_range(y: int, m: int)
    requires
        is_date(y, m, 1),
        m <= 11,
    ensures
        is_day(julian(y, m, 1)),
        is_day(julian(y, m, 1) + 28),
{
    dates_lie_in_range(y, m, 1);
    dates_lie_in_range(y, 12, 1);
    assert(julian(y, m, 1) + 28 <= julian(y, 12, 1));
}

/// No day has two dates.
pub proof fn a_day_has_one_date(day: int, y: int, m: int, d: int, y2: int, m2: int, d2: int)
    requires
        is_date_of(day, y, m, d),
        is_date_of(day, y2, m2, d2),
    ensures
        y == y2 && m == m2 && d == d2,
{
    if y < y2 || (y == y2 && (m < m2 || (m == m2 && d < d2))) {
        dates_are_ordered(y, m, d, y2, m2, d2);
    } else if y2 < y || (y == y2 && (m2 < m || (m == m2 && d2 < d))) {
        dates_are_ordered(y2, m2, d2, y, m, d);
    }
}

/// The date of a day: its year, month and day of the month.
pub open spec fn date_at(day: int) -> (int, int, int) {
    choose|d: (int, int, int)| #[trigger] is_date_of(day, d.0, d.1, d.2)
}

/// The date that a day has is the one that `date_at` speaks of.
pub proof fn the_date_at(day: int, y: int, m: int, d: int)
    requires
        is_date_of(day, y, m, d),
    ensures
        date_at(day) == (y, m, d),
{
    let t = (y, m, d);
    assert(is_date_of(day, t.0, t.1, t.2));
    let u = date_at(day);
    assert(is_date_of(day, u.0, u.1, u.2));
    a_day_has_one_date(day, y, m, d, u.0, u.1, u.2);
}

/// The date of a day.
pub fn date_of(day: i32) -> (r: (i32, u8, u8))
    requires
        is_day(day as int),
    ensures
        is_date_of(day as int, r.0 as int, r.1 as int, r.2 as int),
        date_at(day as int) == (r.0 as int, r.1 as int, r.2 as int),
{
    let (y, m, d) = date_of_day(day);
    proof {
        the_date_at(day as int, y as int, m as int, d as int);
    }
    (y, m, d)
}

/// A number of two digits at least.
pub open spec fn padded2(n: nat) -> Seq<char> {
    if n < 10 {
        "0"@ + decimal(n)
    } else {
        decimal(n)
    }
}

/// A number of four digits at least.
pub open spec fn padded4(n: nat) -> Seq<char> {
    if n < 10 {
        "000"@ + decimal(n)
    } else if n < 100 {
        "00"@ + decimal(n)
    } else if n < 1000 {
        "0"@ + decimal(n)
    } else {
        decimal(n)
    }
}

/// A date as year, month and day, with hyphens between.
pub open spec fn date_text(date: (int, int, int)) -> Seq<char> {
    (if date.0 < 0 {
        "-"@ + padded4((-date.0) as nat)
    } else {
        padded4(date.0 as nat)
    }) + "-"@ + padded2(date.1 as nat) + "-"@ + padded2(date.2 as nat)
}

/// `time::Date`'s `Display`, through `to_string`, on the date that `from_julian_day` gives: year, month
/// and day, of four, two and two digits, with hyphens between and a sign before a negative year.
#[verifier::external_body]
pub(crate) fn day_text(day: i32) -> (r: String)
    requires
        is_day(day as int),
    ensures
        r@ == date_text(date_at(day as int)),
{
    time::Date::from_julian_day(day).unwrap().to_string()
}

// ---- How days are counted ---------------------------------------------------------------------

/// The days are counted one by one: through a month, from the last of a month to the first of the next,
/// and from the last of a year to the first of the next. The first of January 1970 is the day that time
/// is counted from.
pub proof fn the_days_are_counted_one_by_one(y: int, m: int, d: int)
    requires
        1 <= m <= 12,
    ensures
        julian(y, m, d + 1) == julian(y, m, d) + 1,
        m == 1 || m == 3 || m == 5 || m == 7 || m == 8 || m == 10 ==> julian(y, m + 1, 1) == julian(
            y,
            m,
            31,
        ) + 1,
        m == 4 || m == 6 || m == 9 || m == 11 ==> julian(y, m + 1, 1) == julian(y, m, 30) + 1,
        y % 400 == 0 || (y % 4 == 0 && y % 100 != 0) ==> julian(y, 3, 1) == julian(y, 2, 29) + 1,
        y % 4 != 0 || (y % 100 == 0 && y % 400 != 0) ==> julian(y, 3, 1) == julian(y, 2, 28) + 1,
        julian(y + 1, 1, 1) == julian(y, 12, 31) + 1,
        julian(1970, 1, 1) == EPOCH_DAY,
{
    years_have_their_days(y);
}

proof fn years_have_their_days(y: int)
    ensures
        days_before_year(y + 1) == days_before_year(y) + if is_leap(y) {
            366int
        } else {
            365
        },
{
    assert(y / 4 == (y - 1) / 4 + if y % 4 == 0 {
        1int
    } else {
        0
    });
    assert(y / 100 == (y - 1) / 100 + if y % 100 == 0 {
        1int
    } else {
        0
    });
    assert(y / 400 == (y - 1) / 400 + if y % 400 == 0 {
        1int
    } else {
        0
    });
}

/// A day holds the moments from its midnight to the next.
pub proof fn a_day_lasts_until_the_next(t: int, day: int)
    ensures
        day_at(t) == day <==> midnight(day) <= t < midnight(day + 1),
        midnight(day + 1) - midnight(day) == 86_400_000_000_000,
        midnight(EPOCH_DAY as int) == 0,
{
}

/// A number of two digits at least starts with a zero exactly if it would have one digit.
pub proof fn short_numbers_start_with_zeros(n: nat)
    ensures
        n < 10 ==> padded2(n) == "0"@ + decimal(n),
        10 <= n < 100 ==> padded2(n) == decimal(n),
        n < 100 ==> padded2(n).len() == 2,
        n < 10_000 ==> padded4(n).len() == 4,
        n >= 1000 ==> padded4(n) == decimal(n),
{
    reveal_with_fuel(decimal, 4);
    reveal_strlit("0");
    reveal_strlit("00");
    reveal_strlit("000");
}

/// A date is written as its year, month and day, of four, two and two digits; only a year before the
/// first has a sign.
pub proof fn a_date_is_written_with_hyphens(y: int, m: int, d: int)
    requires
        -9999 <= y <= 9999,
        1 <= m <= 12,
        1 <= d <= 31,
    ensures
        y >= 0 ==> date_text((y, m, d)) == padded4(y as nat) + "-"@ + padded2(m as nat) + "-"@ + padded2(
            d as nat,
        ) && date_text((y, m, d)).len() == 10,
        y < 0 ==> date_text((y, m, d)) == "-"@ + padded4((-y) as nat) + "-"@ + padded2(m as nat) + "-"@
            + padded2(d as nat) && date_text((y, m, d)).len() == 11,
{
    reveal_strlit("-");
    short_numbers_start_with_zeros(m as nat);
    short_numbers_start_with_zeros(d as nat);
    if y >= 0 {
        short_numbers_start_with_zeros(y as nat);
    } else {
        short_numbers_start_with_zeros((-y) as nat);
    }
}

} // verus!
