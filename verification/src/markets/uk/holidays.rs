//! The holidays of the London Stock Exchange.

use crate::date::{lemma_plus_days_in_month, Date, Weekday};
use crate::holidays::{adjust_forward, lemma_observed_forward_in_month, observed_forward,
    with_date, year_in_calendar, HolidaySet};
use crate::utils::easter::{calculate_easter_monday, calculate_good_friday, easter_monday_spec,
    good_friday_spec};
use crate::utils::{last_weekday_of_month, last_weekday_spec, nth_weekday_of_month,
    nth_weekday_spec};
use vstd::prelude::*;

verus! {

/// The set `s` with the days on which Christmas Day and Boxing Day are
/// observed, by the weekday of December 25. After a Friday, Boxing Day
/// moves to Monday the 28th. After a Saturday, the two are observed on
/// Monday the 27th and Tuesday the 28th; after a Sunday, on Monday the 26th
/// and Tuesday the 27th. Otherwise Christmas Day stays, and Boxing Day
/// moves forward off a weekend.
pub open spec fn with_boxing_day(s: Set<Date>, year: i32) -> Set<Date> {
    let christmas = Date { year, month: 12, day: 25 };
    let boxing = Date { year, month: 12, day: 26 };
    if christmas.weekday_spec() == Weekday::Fri {
        s.insert(christmas).insert(Date { year, month: 12, day: 28 })
    } else if christmas.weekday_spec() == Weekday::Sat {
        s.insert(Date { year, month: 12, day: 27 }).insert(Date { year, month: 12, day: 28 })
    } else if christmas.weekday_spec() == Weekday::Sun {
        s.insert(boxing).insert(Date { year, month: 12, day: 27 })
    } else {
        s.insert(christmas).insert(observed_forward(boxing))
    }
}

/// The holidays of the London Stock Exchange in a year: New Year's Day and
/// Christmas Day, moved forward off a weekend; Good Friday and Easter
/// Monday; the first Monday of May, the last Monday of May and the last
/// Monday of August; and the days that the Boxing Day rule adds.
pub open spec fn uk_holidays(year: i32) -> Set<Date> {
    let s = Set::<Date>::empty().insert(observed_forward(Date { year, month: 1, day: 1 }));
    let s = with_date(s, good_friday_spec(year as int));
    let s = with_date(s, easter_monday_spec(year as int));
    let s = with_date(s, nth_weekday_spec(year as int, 5, Weekday::Mon, 1));
    let s = with_date(s, last_weekday_spec(year as int, 5, Weekday::Mon));
    let s = with_date(s, last_weekday_spec(year as int, 8, Weekday::Mon));
    let s = s.insert(observed_forward(Date { year, month: 12, day: 25 }));
    with_boxing_day(s, year)
}

/// No UK holiday is observed in July.
pub proof fn lemma_uk_quiet_month(x: Date)
    requires
        x.valid(),
        x.month == 7,
    ensures
        !uk_holidays(x.year).contains(x),
{
    let year = x.year;
    lemma_observed_forward_in_month(Date { year, month: 1, day: 1 });
    lemma_observed_forward_in_month(Date { year, month: 12, day: 25 });
    lemma_observed_forward_in_month(Date { year, month: 12, day: 26 });
    crate::utils::easter::lemma_easter_neighbours(year as int);
}

/// All UK holidays of `year`.
pub fn get_uk_holidays(year: i32) -> (r: HolidaySet)
    requires
        year_in_calendar(year),
    ensures
        r@ == uk_holidays(year),
{
    let mut holidays = HolidaySet::new();
    let new_year = Date { year, month: 1, day: 1 };
    proof {
        lemma_observed_forward_in_month(new_year);
    }
    holidays.insert(adjust_for_weekend_uk(new_year));
    if let Ok(date) = calculate_good_friday(year) {
        holidays.insert(date);
    }
    if let Ok(date) = calculate_easter_monday(year) {
        holidays.insert(date);
    }
    if let Some(date) = nth_weekday_of_month(year, 5, Weekday::Mon, 1) {
        holidays.insert(date);
    }
    if let Some(date) = last_weekday_of_month(year, 5, Weekday::Mon) {
        holidays.insert(date);
    }
    if let Some(date) = last_weekday_of_month(year, 8, Weekday::Mon) {
        holidays.insert(date);
    }
    let christmas = Date { year, month: 12, day: 25 };
    proof {
        lemma_observed_forward_in_month(christmas);
    }
    holidays.insert(adjust_for_weekend_uk(christmas));
    add_boxing_day(&mut holidays, year);
    holidays
}

/// Moves a holiday that falls on a Saturday or Sunday to the Monday
/// after, which has to lie within the calendar.
pub fn adjust_for_weekend_uk(date: Date) -> (r: Date)
    requires
        date.valid(),
        date.weekday_spec() == Weekday::Sat ==> date.day_number() + 2
            <= crate::date::max_day_number(),
        date.weekday_spec() == Weekday::Sun ==> date.day_number() + 1
            <= crate::date::max_day_number(),
    ensures
        r == observed_forward(date),
        r.valid(),
{
    adjust_forward(date)
}

/// Adds the days on which Christmas Day and Boxing Day of `year` are
/// observed.
pub fn add_boxing_day(holidays: &mut HolidaySet, year: i32)
    requires
        year_in_calendar(year),
    ensures
        final(holidays)@ == with_boxing_day(old(holidays)@, year),
{
    let christmas = Date { year, month: 12, day: 25 };
    let boxing = Date { year, month: 12, day: 26 };
    proof {
        lemma_observed_forward_in_month(boxing);
        lemma_plus_days_in_month(boxing, 2);
    }
    match christmas.weekday() {
        Weekday::Fri => {
            holidays.insert(christmas);
            holidays.insert(boxing.add_days(2));
        },
        Weekday::Sat => {
            holidays.insert(Date { year, month: 12, day: 27 });
            holidays.insert(Date { year, month: 12, day: 28 });
        },
        Weekday::Sun => {
            holidays.insert(boxing);
            holidays.insert(Date { year, month: 12, day: 27 });
        },
        _ => {
            holidays.insert(christmas);
            holidays.insert(adjust_for_weekend_uk(boxing));
        },
    }
}

} // verus!
