//! The holidays of the US exchanges.

use crate::date::{lemma_ordinal_bounds, Date, Weekday};
use crate::holidays::{adjust_forward, lemma_observed_forward_in_month,
    lemma_observed_nearest_in_month, observed_forward, observed_nearest, with_date,
    year_in_calendar, HolidaySet};
use crate::utils::easter::{calculate_good_friday, good_friday_spec};
use crate::utils::{last_weekday_of_month, last_weekday_spec, nth_weekday_of_month,
    nth_weekday_spec};
use vstd::prelude::*;

verus! {

/// New Year's Day: January 1, observed on the Monday after a weekend.
pub open spec fn new_years_day_spec(year: i32) -> Date {
    observed_forward(Date { year, month: 1, day: 1 })
}

/// Independence Day: July 4, observed on the Friday before a Saturday and
/// on the Monday after a Sunday.
pub open spec fn independence_day_spec(year: i32) -> Date {
    observed_nearest(Date { year, month: 7, day: 4 })
}

/// Juneteenth: June 19, observed on the Monday after a weekend.
pub open spec fn juneteenth_spec(year: i32) -> Date {
    observed_forward(Date { year, month: 6, day: 19 })
}

/// Christmas Day: December 25, observed on the Monday after a weekend.
pub open spec fn christmas_day_spec(year: i32) -> Date {
    observed_forward(Date { year, month: 12, day: 25 })
}

/// The holidays of the US exchanges in a year: New Year's Day,
/// Independence Day and Christmas Day; Juneteenth from 2021 on; Martin
/// Luther King Jr. Day, Presidents' Day, Memorial Day, Labor Day and
/// Thanksgiving by their weekday rules; and Good Friday.
pub open spec fn us_holidays(year: i32) -> Set<Date> {
    let s = Set::<Date>::empty().insert(new_years_day_spec(year)).insert(
        independence_day_spec(year),
    ).insert(christmas_day_spec(year));
    let s = if year >= 2021 {
        s.insert(juneteenth_spec(year))
    } else {
        s
    };
    let s = with_date(s, nth_weekday_spec(year as int, 1, Weekday::Mon, 3));
    let s = with_date(s, nth_weekday_spec(year as int, 2, Weekday::Mon, 3));
    let s = with_date(s, last_weekday_spec(year as int, 5, Weekday::Mon));
    let s = with_date(s, nth_weekday_spec(year as int, 9, Weekday::Mon, 1));
    let s = with_date(s, nth_weekday_spec(year as int, 11, Weekday::Thu, 4));
    with_date(s, good_friday_spec(year as int))
}

/// No US holiday is observed in August.
pub proof fn lemma_us_quiet_month(x: Date)
    requires
        x.valid(),
        x.month == 8,
    ensures
        !us_holidays(x.year).contains(x),
{
    let year = x.year;
    lemma_observed_forward_in_month(Date { year, month: 1, day: 1 });
    lemma_observed_forward_in_month(Date { year, month: 6, day: 19 });
    lemma_observed_forward_in_month(Date { year, month: 12, day: 25 });
    lemma_observed_nearest_in_month(Date { year, month: 7, day: 4 });
    crate::utils::easter::lemma_easter_neighbours(year as int);
}

/// All US holidays of `year`.
pub fn get_us_holidays(year: i32) -> (r: HolidaySet)
    requires
        year_in_calendar(year),
    ensures
        r@ == us_holidays(year),
{
    let mut holidays = HolidaySet::new();
    holidays.insert(new_years_day(year));
    holidays.insert(independence_day(year));
    holidays.insert(christmas_day(year));
    if year >= 2021 {
        holidays.insert(juneteenth(year));
    }
    if let Some(date) = mlk_day(year) {
        holidays.insert(date);
    }
    if let Some(date) = presidents_day(year) {
        holidays.insert(date);
    }
    if let Some(date) = memorial_day(year) {
        holidays.insert(date);
    }
    if let Some(date) = labor_day(year) {
        holidays.insert(date);
    }
    if let Some(date) = thanksgiving_day(year) {
        holidays.insert(date);
    }
    if let Ok(date) = calculate_good_friday(year) {
        holidays.insert(date);
    }
    holidays
}

/// New Year's Day as observed in `year`.
pub fn new_years_day(year: i32) -> (r: Date)
    requires
        year_in_calendar(year),
    ensures
        r == new_years_day_spec(year),
        r.valid(),
{
    let jan1 = Date { year, month: 1, day: 1 };
    proof {
        lemma_observed_forward_in_month(jan1);
    }
    adjust_forward(jan1)
}

/// Martin Luther King Jr. Day: the third Monday of January.
pub fn mlk_day(year: i32) -> (r: Option<Date>)
    ensures
        r == nth_weekday_spec(year as int, 1, Weekday::Mon, 3),
{
    nth_weekday_of_month(year, 1, Weekday::Mon, 3)
}

/// Presidents' Day: the third Monday of February.
pub fn presidents_day(year: i32) -> (r: Option<Date>)
    ensures
        r == nth_weekday_spec(year as int, 2, Weekday::Mon, 3),
{
    nth_weekday_of_month(year, 2, Weekday::Mon, 3)
}

/// Memorial Day: the last Monday of May.
pub fn memorial_day(year: i32) -> (r: Option<Date>)
    ensures
        r == last_weekday_spec(year as int, 5, Weekday::Mon),
{
    last_weekday_of_month(year, 5, Weekday::Mon)
}

/// Independence Day as observed in `year`.
pub fn independence_day(year: i32) -> (r: Date)
    requires
        year_in_calendar(year),
    ensures
        r == independence_day_spec(year),
        r.valid(),
{
    let july4 = Date { year, month: 7, day: 4 };
    proof {
        lemma_observed_nearest_in_month(july4);
        lemma_ordinal_bounds(july4);
    }
    match july4.weekday() {
        Weekday::Sat => july4.add_days(-1),
        Weekday::Sun => july4.add_days(1),
        _ => july4,
    }
}

/// Labor Day: the first Monday of September.
pub fn labor_day(year: i32) -> (r: Option<Date>)
    ensures
        r == nth_weekday_spec(year as int, 9, Weekday::Mon, 1),
{
    nth_weekday_of_month(year, 9, Weekday::Mon, 1)
}

/// Thanksgiving Day: the fourth Thursday of November.
pub fn thanksgiving_day(year: i32) -> (r: Option<Date>)
    ensures
        r == nth_weekday_spec(year as int, 11, Weekday::Thu, 4),
{
    nth_weekday_of_month(year, 11, Weekday::Thu, 4)
}

/// Juneteenth as observed in `year`.
pub fn juneteenth(year: i32) -> (r: Date)
    requires
        year_in_calendar(year),
    ensures
        r == juneteenth_spec(year),
        r.valid(),
{
    let jun19 = Date { year, month: 6, day: 19 };
    proof {
        lemma_observed_forward_in_month(jun19);
    }
    adjust_forward(jun19)
}

/// Christmas Day as observed in `year`.
pub fn christmas_day(year: i32) -> (r: Date)
    requires
        year_in_calendar(year),
    ensures
        r == christmas_day_spec(year),
        r.valid(),
{
    let dec25 = Date { year, month: 12, day: 25 };
    proof {
        lemma_observed_forward_in_month(dec25);
    }
    adjust_forward(dec25)
}

} // verus!
