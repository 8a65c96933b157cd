//! Calendar dates in the proleptic Gregorian calendar.
//!
//! A [`Date`] holds year, month and day as plain integers. Its position on the
//! time line is its day number: the count of days since the day before
//! January 1 of year 1. Weekdays and date arithmetic are stated over it.

use vstd::prelude::*;

verus! {

/// The first year a date can lie in.
pub const MIN_DATE_YEAR: i32 = -262143;

/// The last year a date can lie in.
pub const MAX_DATE_YEAR: i32 = 262142;

/// A day of the week.
#[derive(Clone, Copy, Debug, PartialEq, Eq, Structural, Hash)]
pub enum Weekday {
    Mon,
    Tue,
    Wed,
    Thu,
    Fri,
    Sat,
    Sun,
}

impl Weekday {
    /// The number of days since Monday: 0 for Monday, 6 for Sunday.
    pub open spec fn index(self) -> int {
        match self {
            Weekday::Mon => 0,
            Weekday::Tue => 1,
            Weekday::Wed => 2,
            Weekday::Thu => 3,
            Weekday::Fri => 4,
            Weekday::Sat => 5,
            Weekday::Sun => 6,
        }
    }

    /// The weekday that lies `i` days after a Monday, for `i` in 0..7.
    pub open spec fn from_index(i: int) -> Weekday {
        if i == 0 {
            Weekday::Mon
        } else if i == 1 {
            Weekday::Tue
        } else if i == 2 {
            Weekday::Wed
        } else if i == 3 {
            Weekday::Thu
        } else if i == 4 {
            Weekday::Fri
        } else if i == 5 {
            Weekday::Sat
        } else {
            Weekday::Sun
        }
    }

    /// Saturday or Sunday.
    pub open spec fn is_weekend_spec(self) -> bool {
        self == Weekday::Sat || self == Weekday::Sun
    }

    /// The number of days since Monday.
    pub fn num_days_from_monday(&self) -> (r: u32)
        ensures
            r == self.index(),
    {
        match self {
            Weekday::Mon => 0,
            Weekday::Tue => 1,
            Weekday::Wed => 2,
            Weekday::Thu => 3,
            Weekday::Fri => 4,
            Weekday::Sat => 5,
            Weekday::Sun => 6,
        }
    }

    /// The number of the weekday when Monday is counted as 1.
    pub fn number_from_monday(&self) -> (r: u32)
        ensures
            r == self.index() + 1,
    {
        self.num_days_from_monday() + 1
    }

    /// Whether this is Saturday or Sunday.
    pub fn is_weekend(&self) -> (r: bool)
        ensures
            r == self.is_weekend_spec(),
    {
        match self {
            Weekday::Sat => true,
            Weekday::Sun => true,
            _ => false,
        }
    }
}

/// Whether `y` is a leap year.
pub open spec fn is_leap_year(y: int) -> bool {
    y % 4 == 0 && (y % 100 != 0 || y % 400 == 0)
}

/// The number of days of month `m` in year `y`.
pub open spec fn days_in_month(y: int, m: int) -> int {
    if m == 2 {
        if is_leap_year(y) {
            29
        } else {
            28
        }
    } else if m == 4 || m == 6 || m == 9 || m == 11 {
        30
    } else {
        31
    }
}

/// The number of days of year `y` that lie before the first of month `m`.
pub open spec fn days_before_month(y: int, m: int) -> int {
    let leap: int = if is_leap_year(y) && m > 2 {
        1
    } else {
        0
    };
    leap + if m <= 1 {
        0int
    } else if m == 2 {
        31
    } else if m == 3 {
        59
    } else if m == 4 {
        90
    } else if m == 5 {
        120
    } else if m == 6 {
        151
    } else if m == 7 {
        181
    } else if m == 8 {
        212
    } else if m == 9 {
        243
    } else if m == 10 {
        273
    } else if m == 11 {
        304
    } else {
        334
    }
}

/// The number of days from January 1 of year 1 up to, and without, January 1
/// of year `y`. Negative for years before year 1.
pub open spec fn days_before_year(y: int) -> int {
    365 * (y - 1) + (y - 1) / 4 - (y - 1) / 100 + (y - 1) / 400
}

/// Whether year, month and day name a day of the calendar within the
/// supported years.
pub open spec fn valid_ymd(y: int, m: int, d: int) -> bool {
    &&& MIN_DATE_YEAR <= y <= MAX_DATE_YEAR
    &&& 1 <= m <= 12
    &&& 1 <= d <= days_in_month(y, m)
}

/// The day number of the first supported day.
pub open spec fn min_day_number() -> int {
    days_before_year(MIN_DATE_YEAR as int) + 1
}

/// The day number of the last supported day.
pub open spec fn max_day_number() -> int {
    days_before_year(MAX_DATE_YEAR as int + 1)
}

/// A calendar date. The fields stand in the order in which dates sort.
#[derive(Clone, Copy, Debug, PartialEq, Eq, Structural, Hash, PartialOrd, Ord)]
pub struct Date {
    /// The year; year 0 is the year before year 1.
    pub year: i32,
    /// The month, from 1 for January to 12 for December.
    pub month: u32,
    /// The day of the month, from 1.
    pub day: u32,
}

impl Date {
    /// The date exists in the calendar.
    pub open spec fn valid(self) -> bool {
        valid_ymd(self.year as int, self.month as int, self.day as int)
    }

    /// Days since the day before January 1 of year 1.
    pub open spec fn day_number(self) -> int {
        days_before_year(self.year as int) + days_before_month(self.year as int, self.month as int)
            + self.day
    }

    /// The day of the week. Day number 1 is a Monday.
    pub open spec fn weekday_spec(self) -> Weekday {
        Weekday::from_index((self.day_number() - 1) % 7)
    }

    /// Whether the date falls on a Saturday or Sunday.
    pub open spec fn is_weekend_spec(self) -> bool {
        self.weekday_spec().is_weekend_spec()
    }

    /// The date `n` days after this one (before it, for negative `n`).
    pub open spec fn plus_days(self, n: int) -> Date {
        choose|r: Date| r.valid() && r.day_number() == self.day_number() + n
    }

    /// Whether this date lies strictly before `other`.
    pub open spec fn before(self, other: Date) -> bool {
        self.day_number() < other.day_number()
    }

    /// Whether the fields of this date sort before those of `other`.
    pub open spec fn fields_before(self, other: Date) -> bool {
        self.year < other.year || (self.year == other.year && (self.month < other.month || (
        self.month == other.month && self.day < other.day)))
    }

    /// The date with the given year, month and day, if there is one.
    pub fn from_ymd_opt(year: i32, month: u32, day: u32) -> (r: Option<Date>)
        ensures
            valid_ymd(year as int, month as int, day as int) ==> r == Some(
                Date { year, month, day },
            ),
            !valid_ymd(year as int, month as int, day as int) ==> r is None,
    {
        naive_from_ymd(year, month, day)
    }

    /// The year of the date.
    pub fn year(&self) -> (r: i32)
        ensures
            r == self.year,
    {
        self.year
    }

    /// The month of the date, from 1 for January.
    pub fn month(&self) -> (r: u32)
        ensures
            r == self.month,
    {
        self.month
    }

    /// The day of the month, from 1.
    pub fn day(&self) -> (r: u32)
        ensures
            r == self.day,
    {
        self.day
    }

    /// The day of the week this date falls on.
    pub fn weekday(&self) -> (r: Weekday)
        requires
            self.valid(),
        ensures
            r == self.weekday_spec(),
    {
        naive_weekday(*self)
    }

    /// The date `days` days later, or earlier for a negative count. The
    /// result has to lie within the supported years.
    pub fn add_days(&self, days: i64) -> (r: Date)
        requires
            self.valid(),
            min_day_number() <= self.day_number() + days <= max_day_number(),
        ensures
            r.valid(),
            r.day_number() == self.day_number() + days,
            r == self.plus_days(days as int),
    {
        let r = naive_checked_add_days(*self, days).unwrap();
        proof {
            lemma_plus_days_is(*self, days as int, r);
        }
        r
    }

    /// The date `days` days later, or earlier for a negative count, if it
    /// lies within the supported years.
    pub fn checked_add_days(&self, days: i64) -> (r: Option<Date>)
        requires
            self.valid(),
        ensures
            min_day_number() <= self.day_number() + days <= max_day_number() ==> r == Some(
                self.plus_days(days as int),
            ) && r->Some_0.valid() && r->Some_0.day_number() == self.day_number() + days,
            !(min_day_number() <= self.day_number() + days <= max_day_number()) ==> r is None,
    {
        let r = naive_checked_add_days(*self, days);
        proof {
            if r is Some {
                lemma_plus_days_is(*self, days as int, r->Some_0);
            }
        }
        r
    }

    /// Whether this date lies strictly before `other`.
    pub fn is_before(&self, other: &Date) -> (r: bool)
        requires
            self.valid(),
            other.valid(),
        ensures
            r == self.before(*other),
    {
        proof {
            lemma_before_by_fields(*self, *other);
        }
        self.year < other.year || (self.year == other.year && (self.month < other.month || (
        self.month == other.month && self.day < other.day)))
    }
}

/// `NaiveDate::from_ymd_opt` of chrono: gives a date exactly for the days that
/// exist in the proleptic Gregorian calendar within chrono's range of years,
/// and that date has the year, month and day it was asked for.
#[verifier::external_body]
fn naive_from_ymd(year: i32, month: u32, day: u32) -> (r: Option<Date>)
    ensures
        valid_ymd(year as int, month as int, day as int) ==> r == Some(Date { year, month, day }),
        !valid_ymd(year as int, month as int, day as int) ==> r is None,
{
    chrono::NaiveDate::from_ymd_opt(year, month, day).map(
        |d| Date {
            year: chrono::Datelike::year(&d),
            month: chrono::Datelike::month(&d),
            day: chrono::Datelike::day(&d),
        },
    )
}

/// `NaiveDate::weekday` of chrono: the day of the week of a date of the
/// proleptic Gregorian calendar, in which January 1 of year 1 is a Monday.
#[verifier::external_body]
fn naive_weekday(date: Date) -> (r: Weekday)
    requires
        date.valid(),
    ensures
        r == date.weekday_spec(),
{
    let d = chrono::NaiveDate::from_ymd_opt(date.year, date.month, date.day).unwrap();
    match chrono::Datelike::weekday(&d) {
        chrono::Weekday::Mon => Weekday::Mon,
        chrono::Weekday::Tue => Weekday::Tue,
        chrono::Weekday::Wed => Weekday::Wed,
        chrono::Weekday::Thu => Weekday::Thu,
        chrono::Weekday::Fri => Weekday::Fri,
        chrono::Weekday::Sat => Weekday::Sat,
        chrono::Weekday::Sun => Weekday::Sun,
    }
}

/// `NaiveDate::checked_add_signed` of chrono with a `TimeDelta` of whole
/// days made by `TimeDelta::try_days`: the date that many days later, and
/// none where it would lie outside chrono's range of years.
#[verifier::external_body]
fn naive_checked_add_days(date: Date, days: i64) -> (r: Option<Date>)
    requires
        date.valid(),
    ensures
        min_day_number() <= date.day_number() + days <= max_day_number() ==> r is Some
            && r->Some_0.valid() && r->Some_0.day_number() == date.day_number() + days,
        !(min_day_number() <= date.day_number() + days <= max_day_number()) ==> r is None,
{
    let d = chrono::NaiveDate::from_ymd_opt(date.year, date.month, date.day).unwrap();
    let sum = chrono::TimeDelta::try_days(days).and_then(|delta| d.checked_add_signed(delta));
    sum.map(
        |d| Date {
            year: chrono::Datelike::year(&d),
            month: chrono::Datelike::month(&d),
            day: chrono::Datelike::day(&d),
        },
    )
}

/// From one year to the next the count of years divisible by 4 grows
/// by one exactly at a year divisible by 4.
proof fn lemma_quotient_step_4(y: int)
    ensures
        y / 4 - (y - 1) / 4 == if y % 4 == 0 {
            1int
        } else {
            0int
        },
{
}

/// The same for the years divisible by 100, which are divisible by 4.
proof fn lemma_quotient_step_100(y: int)
    ensures
        y / 100 - (y - 1) / 100 == if y % 100 == 0 {
            1int
        } else {
            0int
        },
        y % 100 == 0 ==> y % 4 == 0,
{
}

/// The same for the years divisible by 400, which are divisible by 100.
proof fn lemma_quotient_step_400(y: int)
    ensures
        y / 400 - (y - 1) / 400 == if y % 400 == 0 {
            1int
        } else {
            0int
        },
        y % 400 == 0 ==> y % 100 == 0,
{
}

/// A year is 365 days long, or 366 if it is a leap year.
pub proof fn lemma_year_length(y: int)
    ensures
        days_before_year(y + 1) == days_before_year(y) + 365 + if is_leap_year(y) {
            1int
        } else {
            0int
        },
{
    lemma_quotient_step_4(y);
    lemma_quotient_step_100(y);
    lemma_quotient_step_400(y);
}

/// Later years start later, by at least 365 days for each year between.
pub proof fn lemma_years_monotone(y1: int, y2: int)
    requires
        y1 <= y2,
    ensures
        days_before_year(y2) >= days_before_year(y1) + 365 * (y2 - y1),
        days_before_year(y2) <= days_before_year(y1) + 366 * (y2 - y1),
    decreases y2 - y1,
{
    if y1 < y2 {
        lemma_years_monotone(y1, y2 - 1);
        lemma_year_length(y2 - 1);
    }
}

/// The day of the year of a valid date lies within the year's length.
pub proof fn lemma_ordinal_bounds(d: Date)
    requires
        d.valid(),
    ensures
        1 <= days_before_month(d.year as int, d.month as int) + d.day <= 365 + if is_leap_year(
            d.year as int,
        ) {
            1int
        } else {
            0int
        },
        min_day_number() <= d.day_number() <= max_day_number(),
{
    lemma_years_monotone(MIN_DATE_YEAR as int, d.year as int);
    lemma_years_monotone(d.year as int + 1, MAX_DATE_YEAR as int + 1);
    lemma_year_length(d.year as int);
}

/// Dates are ordered on the time line as their fields are ordered.
pub proof fn lemma_before_by_fields(a: Date, b: Date)
    requires
        a.valid(),
        b.valid(),
    ensures
        a.before(b) == a.fields_before(b),
        a.day_number() == b.day_number() <==> a == b,
{
    lemma_ordinal_bounds(a);
    lemma_ordinal_bounds(b);
    if a.year < b.year {
        lemma_year_length(a.year as int);
        lemma_years_monotone(a.year as int + 1, b.year as int);
    } else if b.year < a.year {
        lemma_year_length(b.year as int);
        lemma_years_monotone(b.year as int + 1, a.year as int);
    } else {
        lemma_months_monotone(a.year as int, a.month as int, b.month as int);
        lemma_months_monotone(a.year as int, b.month as int, a.month as int);
    }
}

/// Within a year, a later month starts after the last day of an earlier one.
pub proof fn lemma_months_monotone(y: int, m1: int, m2: int)
    requires
        1 <= m1 <= 12,
        1 <= m2 <= 12,
    ensures
        m1 < m2 ==> days_before_month(y, m1) + days_in_month(y, m1) <= days_before_month(y, m2),
        days_before_month(y, m1) + days_in_month(y, m1) == days_before_month(y, m1 + 1) || m1 == 12,
{
}

/// A valid date at the right distance is the date that `plus_days` names.
pub proof fn lemma_plus_days_is(d: Date, n: int, r: Date)
    requires
        r.valid(),
        r.day_number() == d.day_number() + n,
    ensures
        d.plus_days(n) == r,
{
    let c = d.plus_days(n);
    assert(c.valid() && c.day_number() == d.day_number() + n);
    lemma_before_by_fields(c, r);
}

/// Moving within a month changes only the day.
pub proof fn lemma_plus_days_in_month(d: Date, n: int)
    requires
        d.valid(),
        1 <= d.day + n <= days_in_month(d.year as int, d.month as int),
    ensures
        d.plus_days(n) == (Date { year: d.year, month: d.month, day: (d.day + n) as u32 }),
{
    let r = Date { year: d.year, month: d.month, day: (d.day + n) as u32 };
    lemma_plus_days_is(d, n, r);
}

/// A step of up to 28 days forward stays in the month or reaches the next.
pub proof fn lemma_plus_days_forward(d: Date, k: int)
    requires
        d.valid(),
        0 <= k <= 28,
        d.month <= 11 || d.day + k <= 31,
    ensures
        d.plus_days(k).valid(),
        d.plus_days(k).day_number() == d.day_number() + k,
        d.plus_days(k) == if d.day + k <= days_in_month(d.year as int, d.month as int) {
            Date { year: d.year, month: d.month, day: (d.day + k) as u32 }
        } else {
            Date {
                year: d.year,
                month: (d.month + 1) as u32,
                day: (d.day + k - days_in_month(d.year as int, d.month as int)) as u32,
            }
        },
{
    let r = if d.day + k <= days_in_month(d.year as int, d.month as int) {
        Date { year: d.year, month: d.month, day: (d.day + k) as u32 }
    } else {
        Date {
            year: d.year,
            month: (d.month + 1) as u32,
            day: (d.day + k - days_in_month(d.year as int, d.month as int)) as u32,
        }
    };
    lemma_months_monotone(d.year as int, d.month as int, d.month as int);
    lemma_plus_days_is(d, k, r);
}

/// A step of up to 28 days back stays in the month or reaches the one
/// before.
pub proof fn lemma_plus_days_backward(d: Date, k: int)
    requires
        d.valid(),
        0 <= k <= 28,
        d.month >= 2 || d.day - k >= 1,
    ensures
        d.plus_days(-k).valid(),
        d.plus_days(-k).day_number() == d.day_number() - k,
        d.plus_days(-k) == if d.day - k >= 1 {
            Date { year: d.year, month: d.month, day: (d.day - k) as u32 }
        } else {
            Date {
                year: d.year,
                month: (d.month - 1) as u32,
                day: (d.day - k + days_in_month(d.year as int, d.month - 1)) as u32,
            }
        },
{
    let r = if d.day - k >= 1 {
        Date { year: d.year, month: d.month, day: (d.day - k) as u32 }
    } else {
        Date {
            year: d.year,
            month: (d.month - 1) as u32,
            day: (d.day - k + days_in_month(d.year as int, d.month - 1)) as u32,
        }
    };
    if d.month >= 2 {
        lemma_months_monotone(d.year as int, d.month - 1, d.month as int);
    }
    lemma_plus_days_is(d, -k, r);
}

/// Every date but the last has a date one day after it.
pub proof fn lemma_next_day(d: Date)
    requires
        d.valid(),
        d.day_number() < max_day_number(),
    ensures
        d.plus_days(1).valid(),
        d.plus_days(1).day_number() == d.day_number() + 1,
{
    if d.month <= 11 || d.day + 1 <= 31 {
        lemma_plus_days_forward(d, 1);
    } else {
        lemma_year_length(d.year as int);
        let r = Date { year: (d.year + 1) as i32, month: 1, day: 1 };
        lemma_plus_days_is(d, 1, r);
    }
}

/// Every date but the first has a date one day before it.
pub proof fn lemma_previous_day(d: Date)
    requires
        d.valid(),
        min_day_number() < d.day_number(),
    ensures
        d.plus_days(-1).valid(),
        d.plus_days(-1).day_number() == d.day_number() - 1,
{
    if d.month >= 2 || d.day - 1 >= 1 {
        lemma_plus_days_backward(d, 1);
    } else {
        lemma_year_length(d.year - 1);
        let r = Date { year: (d.year - 1) as i32, month: 12, day: 31 };
        lemma_plus_days_is(d, -1, r);
    }
}

/// The first day of a month that is not on a weekend: one of its first
/// three days.
pub open spec fn first_weekday_of_month(year: i32, month: u32) -> Date {
    let first = Date { year, month, day: 1 };
    if first.weekday_spec() == Weekday::Sat {
        Date { year, month, day: 3 }
    } else if first.weekday_spec() == Weekday::Sun {
        Date { year, month, day: 2 }
    } else {
        first
    }
}

/// Every month has a day among its first three that is not on a weekend.
pub proof fn lemma_first_weekday_of_month(year: i32, month: u32)
    requires
        valid_ymd(year as int, month as int, 1),
    ensures
        first_weekday_of_month(year, month).valid(),
        !first_weekday_of_month(year, month).is_weekend_spec(),
{
}

} // verus!
