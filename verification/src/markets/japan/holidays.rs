//! The holidays of the Tokyo Stock Exchange.

use crate::date::{lemma_ordinal_bounds, max_day_number, Date, Weekday};
use crate::holidays::{lemma_room_in_year, with_date, year_in_calendar, HolidaySet};
use crate::utils::{nth_weekday_of_month, nth_weekday_spec};
use vstd::prelude::*;

verus! {

/// The first of the days `k` to 7 days after `date` that is not in `s`.
pub open spec fn first_free_day(s: Set<Date>, date: Date, k: int) -> Option<Date>
    decreases 8 - k,
{
    if k > 7 {
        None
    } else if !s.contains(date.plus_days(k)) {
        Some(date.plus_days(k))
    } else {
        first_free_day(s, date, k + 1)
    }
}

/// The set `s` with a holiday on `date`. Where `date` is a Sunday, the
/// first of the seven days after it that is not a holiday yet becomes one
/// in its place.
pub open spec fn with_substitute(s: Set<Date>, date: Date) -> Set<Date> {
    let s = s.insert(date);
    if date.weekday_spec() == Weekday::Sun {
        with_date(s, first_free_day(s, date, 1))
    } else {
        s
    }
}

/// The set `s` with the holidays of Golden Week besides May 3 and May 5:
/// May 4 in every year; May 2 where May 3 is a Tuesday; May 6 where May 5
/// is a Thursday, where May 3 is a Friday and May 5 a Sunday, and where
/// May 4 is a Sunday.
pub open spec fn with_golden_week(s: Set<Date>, year: i32) -> Set<Date> {
    let may_3 = Date { year, month: 5, day: 3 };
    let may_4 = Date { year, month: 5, day: 4 };
    let may_5 = Date { year, month: 5, day: 5 };
    let may_2 = Date { year, month: 5, day: 2 };
    let may_6 = Date { year, month: 5, day: 6 };
    let s = s.insert(may_4);
    let s = if may_3.weekday_spec() == Weekday::Tue {
        s.insert(may_2)
    } else {
        s
    };
    let s = if may_5.weekday_spec() == Weekday::Thu {
        s.insert(may_6)
    } else {
        s
    };
    let s = if may_3.weekday_spec() == Weekday::Fri && may_5.weekday_spec() == Weekday::Sun {
        s.insert(may_6)
    } else {
        s
    };
    if may_4.weekday_spec() == Weekday::Sun {
        s.insert(may_6)
    } else {
        s
    }
}

/// The day of March on which the vernal equinox is observed, as published
/// for the years 2020 to 2030.
pub open spec fn vernal_equinox_day(year: i32) -> Option<u32> {
    if year == 2022 || year == 2023 || year == 2027 {
        Some(21u32)
    } else if 2020 <= year <= 2030 {
        Some(20u32)
    } else {
        None
    }
}

/// The day of September on which the autumnal equinox is observed, as
/// published for the years 2020 to 2030.
pub open spec fn autumnal_equinox_day(year: i32) -> Option<u32> {
    if year == 2020 || year == 2024 || year == 2028 {
        Some(22u32)
    } else if 2020 <= year <= 2030 {
        Some(23u32)
    } else {
        None
    }
}

/// Vernal Equinox Day of a year, where it is known.
pub open spec fn vernal_equinox_spec(year: i32) -> Option<Date> {
    match vernal_equinox_day(year) {
        Some(day) => Some(Date { year, month: 3, day }),
        None => None,
    }
}

/// Autumnal Equinox Day of a year, where it is known.
pub open spec fn autumnal_equinox_spec(year: i32) -> Option<Date> {
    match autumnal_equinox_day(year) {
        Some(day) => Some(Date { year, month: 9, day }),
        None => None,
    }
}

/// The set `s` with a holiday on the date of `o`, and its substitute, if
/// there is a date.
pub open spec fn with_substitute_opt(s: Set<Date>, o: Option<Date>) -> Set<Date> {
    match o {
        Some(d) => with_substitute(s, d),
        None => s,
    }
}

/// The holidays of the Tokyo Stock Exchange in a year, built up in this
/// order, each fixed date with its substitute: January 1 to 3; Coming of
/// Age Day; February 11 and 23; Vernal Equinox Day; April 29; May 3 and 5;
/// the rest of Golden Week; Marine Day; August 11; Respect for the Aged
/// Day; Autumnal Equinox Day; Sports Day; November 3 and 23; and
/// December 31, on which the market is closed whatever the weekday.
pub open spec fn japan_holidays(year: i32) -> Set<Date> {
    let s = Set::<Date>::empty();
    let s = with_substitute(s, Date { year, month: 1, day: 1 });
    let s = with_substitute(s, Date { year, month: 1, day: 2 });
    let s = with_substitute(s, Date { year, month: 1, day: 3 });
    let s = with_date(s, nth_weekday_spec(year as int, 1, Weekday::Mon, 2));
    let s = with_substitute(s, Date { year, month: 2, day: 11 });
    let s = with_substitute(s, Date { year, month: 2, day: 23 });
    let s = with_substitute_opt(s, vernal_equinox_spec(year));
    let s = with_substitute(s, Date { year, month: 4, day: 29 });
    let s = with_substitute(s, Date { year, month: 5, day: 3 });
    let s = with_substitute(s, Date { year, month: 5, day: 5 });
    let s = with_golden_week(s, year);
    let s = with_date(s, nth_weekday_spec(year as int, 7, Weekday::Mon, 3));
    let s = with_substitute(s, Date { year, month: 8, day: 11 });
    let s = with_date(s, nth_weekday_spec(year as int, 9, Weekday::Mon, 3));
    let s = with_substitute_opt(s, autumnal_equinox_spec(year));
    let s = with_date(s, nth_weekday_spec(year as int, 10, Weekday::Mon, 2));
    let s = with_substitute(s, Date { year, month: 11, day: 3 });
    let s = with_substitute(s, Date { year, month: 11, day: 23 });
    s.insert(Date { year, month: 12, day: 31 })
}

/// No substitute for a holiday outside June, and not late in May, falls
/// in June.
pub proof fn lemma_substitute_outside_june(s: Set<Date>, date: Date, x: Date, k: int)
    requires
        1 <= k <= 8,
        date.valid(),
        date.month <= 11,
        date.month != 6,
        date.month == 5 ==> date.day <= 24,
        x.month == 6,
    ensures
        first_free_day(s, date, k) != Some(x),
    decreases 8 - k,
{
    if k <= 7 {
        crate::date::lemma_plus_days_forward(date, k);
        lemma_substitute_outside_june(s, date, x, k + 1);
    }
}

/// Adding a holiday outside June, and not late in May, adds no day of
/// June.
pub proof fn lemma_with_substitute_outside_june(s: Set<Date>, date: Date, x: Date)
    requires
        !s.contains(x),
        date.valid(),
        date.month <= 11,
        date.month != 6,
        date.month == 5 ==> date.day <= 24,
        x.month == 6,
    ensures
        !with_substitute(s, date).contains(x),
{
    lemma_substitute_outside_june(s.insert(date), date, x, 1);
}

/// No Japanese holiday is observed in June.
pub proof fn lemma_japan_quiet_month(x: Date)
    requires
        x.valid(),
        x.month == 6,
    ensures
        !japan_holidays(x.year).contains(x),
{
    let year = x.year;
    let s = Set::<Date>::empty();
    lemma_with_substitute_outside_june(s, Date { year, month: 1, day: 1 }, x);
    let s = with_substitute(s, Date { year, month: 1, day: 1 });
    lemma_with_substitute_outside_june(s, Date { year, month: 1, day: 2 }, x);
    let s = with_substitute(s, Date { year, month: 1, day: 2 });
    lemma_with_substitute_outside_june(s, Date { year, month: 1, day: 3 }, x);
    let s = with_substitute(s, Date { year, month: 1, day: 3 });
    let s = with_date(s, nth_weekday_spec(year as int, 1, Weekday::Mon, 2));
    lemma_with_substitute_outside_june(s, Date { year, month: 2, day: 11 }, x);
    let s = with_substitute(s, Date { year, month: 2, day: 11 });
    lemma_with_substitute_outside_june(s, Date { year, month: 2, day: 23 }, x);
    let s = with_substitute(s, Date { year, month: 2, day: 23 });
    if vernal_equinox_spec(year) is Some {
        lemma_with_substitute_outside_june(s, vernal_equinox_spec(year)->Some_0, x);
    }
    let s = with_substitute_opt(s, vernal_equinox_spec(year));
    lemma_with_substitute_outside_june(s, Date { year, month: 4, day: 29 }, x);
    let s = with_substitute(s, Date { year, month: 4, day: 29 });
    lemma_with_substitute_outside_june(s, Date { year, month: 5, day: 3 }, x);
    let s = with_substitute(s, Date { year, month: 5, day: 3 });
    lemma_with_substitute_outside_june(s, Date { year, month: 5, day: 5 }, x);
    let s = with_substitute(s, Date { year, month: 5, day: 5 });
    let s = with_golden_week(s, year);
    let s = with_date(s, nth_weekday_spec(year as int, 7, Weekday::Mon, 3));
    lemma_with_substitute_outside_june(s, Date { year, month: 8, day: 11 }, x);
    let s = with_substitute(s, Date { year, month: 8, day: 11 });
    let s = with_date(s, nth_weekday_spec(year as int, 9, Weekday::Mon, 3));
    if autumnal_equinox_spec(year) is Some {
        lemma_with_substitute_outside_june(s, autumnal_equinox_spec(year)->Some_0, x);
    }
    let s = with_substitute_opt(s, autumnal_equinox_spec(year));
    let s = with_date(s, nth_weekday_spec(year as int, 10, Weekday::Mon, 2));
    lemma_with_substitute_outside_june(s, Date { year, month: 11, day: 3 }, x);
    let s = with_substitute(s, Date { year, month: 11, day: 3 });
    lemma_with_substitute_outside_june(s, Date { year, month: 11, day: 23 }, x);
}

/// All Japanese holidays of `year`.
pub fn get_japan_holidays(year: i32) -> (r: HolidaySet)
    requires
        year_in_calendar(year),
    ensures
        r@ == japan_holidays(year),
{
    let mut holidays = HolidaySet::new();
    add_fixed(&mut holidays, year, 1, 1);
    add_fixed(&mut holidays, year, 1, 2);
    add_fixed(&mut holidays, year, 1, 3);
    if let Some(date) = nth_weekday_of_month(year, 1, Weekday::Mon, 2) {
        holidays.insert(date);
    }
    add_fixed(&mut holidays, year, 2, 11);
    add_fixed(&mut holidays, year, 2, 23);
    if let Some(date) = calculate_vernal_equinox(year) {
        proof {
            lemma_room_in_year(date);
        }
        add_with_substitute(&mut holidays, date);
    }
    add_fixed(&mut holidays, year, 4, 29);
    add_fixed(&mut holidays, year, 5, 3);
    add_fixed(&mut holidays, year, 5, 5);
    apply_golden_week_rules(year, &mut holidays);
    if let Some(date) = nth_weekday_of_month(year, 7, Weekday::Mon, 3) {
        holidays.insert(date);
    }
    add_fixed(&mut holidays, year, 8, 11);
    if let Some(date) = nth_weekday_of_month(year, 9, Weekday::Mon, 3) {
        holidays.insert(date);
    }
    if let Some(date) = calculate_autumnal_equinox(year) {
        proof {
            lemma_room_in_year(date);
        }
        add_with_substitute(&mut holidays, date);
    }
    if let Some(date) = nth_weekday_of_month(year, 10, Weekday::Mon, 2) {
        holidays.insert(date);
    }
    add_fixed(&mut holidays, year, 11, 3);
    add_fixed(&mut holidays, year, 11, 23);
    holidays.insert(Date { year, month: 12, day: 31 });
    holidays
}

/// Adds the holiday on a fixed day of a month before December, with its
/// substitute.
fn add_fixed(holidays: &mut HolidaySet, year: i32, month: u32, day: u32)
    requires
        year_in_calendar(year),
        month <= 11,
        crate::date::valid_ymd(year as int, month as int, day as int),
    ensures
        final(holidays)@ == with_substitute(old(holidays)@, Date { year, month, day }),
{
    let date = Date { year, month, day };
    proof {
        lemma_room_in_year(date);
    }
    add_with_substitute(holidays, date);
}

/// Adds a holiday on `date`. Where `date` is a Sunday, the first of the
/// seven days after it that is not a holiday yet becomes one too; those
/// seven days have to lie within the calendar.
pub fn add_with_substitute(holidays: &mut HolidaySet, date: Date)
    requires
        date.valid(),
        date.weekday_spec() == Weekday::Sun ==> date.day_number() + 7 <= max_day_number(),
    ensures
        final(holidays)@ == with_substitute(old(holidays)@, date),
{
    holidays.insert(date);
    let ghost with_date_in = holidays@;
    match date.weekday() {
        Weekday::Sun => {
            proof {
                lemma_ordinal_bounds(date);
            }
            let mut k: i64 = 1;
            while k <= 7
                invariant
                    1 <= k <= 8,
                    date.valid(),
                    crate::date::min_day_number() <= date.day_number(),
                    date.day_number() + 7 <= max_day_number(),
                    holidays@ == with_date_in,
                    with_date_in == old(holidays)@.insert(date),
                    date.weekday_spec() == Weekday::Sun,
                    first_free_day(with_date_in, date, 1) == first_free_day(
                        with_date_in,
                        date,
                        k as int,
                    ),
                decreases 8 - k,
            {
                let candidate = date.add_days(k);
                assert(first_free_day(with_date_in, date, k as int) == if !with_date_in.contains(
                    candidate,
                ) {
                    Some(candidate)
                } else {
                    first_free_day(with_date_in, date, k + 1)
                });
                if !holidays.contains(&candidate) {
                    holidays.insert(candidate);
                    return ;
                }
                k += 1;
            }
        },
        _ => {},
    }
}

/// Adds the holidays of Golden Week besides May 3 and May 5.
pub fn apply_golden_week_rules(year: i32, holidays: &mut HolidaySet)
    requires
        year_in_calendar(year),
    ensures
        final(holidays)@ == with_golden_week(old(holidays)@, year),
{
    let may_3 = Date { year, month: 5, day: 3 };
    let may_4 = Date { year, month: 5, day: 4 };
    let may_5 = Date { year, month: 5, day: 5 };
    let w3 = may_3.weekday();
    let w4 = may_4.weekday();
    let w5 = may_5.weekday();
    holidays.insert(may_4);
    if w3.num_days_from_monday() == 1 {
        holidays.insert(Date { year, month: 5, day: 2 });
    }
    if w5.num_days_from_monday() == 3 {
        holidays.insert(Date { year, month: 5, day: 6 });
    }
    if w3.num_days_from_monday() == 4 && w5.num_days_from_monday() == 6 {
        holidays.insert(Date { year, month: 5, day: 6 });
    }
    if w4.num_days_from_monday() == 6 {
        holidays.insert(Date { year, month: 5, day: 6 });
    }
}

/// Vernal Equinox Day of `year`, for the years 2020 to 2030.
pub fn calculate_vernal_equinox(year: i32) -> (r: Option<Date>)
    ensures
        r == vernal_equinox_spec(year),
        r is Some ==> r->Some_0.valid() && r->Some_0.month == 3,
{
    let day: u32 = match year {
        2020 => 20,
        2021 => 20,
        2022 => 21,
        2023 => 21,
        2024 => 20,
        2025 => 20,
        2026 => 20,
        2027 => 21,
        2028 => 20,
        2029 => 20,
        2030 => 20,
        _ => {
            return None;
        },
    };
    Date::from_ymd_opt(year, 3, day)
}

/// Autumnal Equinox Day of `year`, for the years 2020 to 2030.
pub fn calculate_autumnal_equinox(year: i32) -> (r: Option<Date>)
    ensures
        r == autumnal_equinox_spec(year),
        r is Some ==> r->Some_0.valid() && r->Some_0.month == 9,
{
    let day: u32 = match year {
        2020 => 22,
        2021 => 23,
        2022 => 23,
        2023 => 23,
        2024 => 22,
        2025 => 23,
        2026 => 23,
        2027 => 23,
        2028 => 22,
        2029 => 23,
        2030 => 23,
        _ => {
            return None;
        },
    };
    Date::from_ymd_opt(year, 9, day)
}

} // verus!
