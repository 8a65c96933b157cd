//! The holidays of the Toronto Stock Exchange.

use crate::date::{lemma_plus_days_in_month, valid_ymd, Date, Weekday};
use crate::holidays::{adjust_forward, lemma_observed_forward_in_month, observed_forward,
    with_date, year_in_calendar, HolidaySet};
use crate::utils::easter::{calculate_good_friday, good_friday_spec};
use crate::utils::{nth_weekday_of_month, nth_weekday_spec};
use vstd::prelude::*;

verus! {

/// Victoria Day: the Monday on or before May 24.
pub open spec fn victoria_day_spec(year: i32) -> Option<Date> {
    let may_24 = Date { year, month: 5, day: 24 };
    if valid_ymd(year as int, 5, 24) {
        Some(Date { year, month: 5, day: (24 - may_24.weekday_spec().index()) as u32 })
    } else {
        None
    }
}

/// The day on which Boxing Day is observed, by the weekdays of December 25
/// and 26: two days later where Boxing Day falls on a Saturday or, after a
/// Christmas Day on Saturday, on a Sunday; one day later on any other
/// Sunday; else on December 26 itself.
pub open spec fn boxing_day_spec(year: i32) -> Date {
    let christmas = Date { year, month: 12, day: 25 };
    let boxing = Date { year, month: 12, day: 26 };
    let cw = christmas.weekday_spec();
    let bw = boxing.weekday_spec();
    if cw == Weekday::Fri && bw == Weekday::Sat {
        boxing.plus_days(2)
    } else if cw == Weekday::Sat && bw == Weekday::Sun {
        boxing.plus_days(2)
    } else if bw == Weekday::Sat {
        boxing.plus_days(2)
    } else if bw == Weekday::Sun {
        boxing.plus_days(1)
    } else {
        boxing
    }
}

/// The holidays of the Toronto Stock Exchange in a year: New Year's Day,
/// Canada Day and Christmas Day, moved forward off a weekend; Family Day
/// from 2008 on; Good Friday; Victoria Day; Labour Day; Thanksgiving; and
/// Boxing Day. The Civic Holiday in August is a trading day.
pub open spec fn canada_holidays(year: i32) -> Set<Date> {
    let s = Set::<Date>::empty().insert(observed_forward(Date { year, month: 1, day: 1 }));
    let s = if year >= 2008 {
        with_date(s, nth_weekday_spec(year as int, 2, Weekday::Mon, 3))
    } else {
        s
    };
    let s = with_date(s, good_friday_spec(year as int));
    let s = with_date(s, victoria_day_spec(year));
    let s = s.insert(observed_forward(Date { year, month: 7, day: 1 }));
    let s = with_date(s, nth_weekday_spec(year as int, 9, Weekday::Mon, 1));
    let s = with_date(s, nth_weekday_spec(year as int, 10, Weekday::Mon, 2));
    let s = s.insert(observed_forward(Date { year, month: 12, day: 25 }));
    s.insert(boxing_day_spec(year))
}

/// Victoria Day is a Monday from May 18 to May 24.
pub proof fn lemma_victoria_day(year: i32)
    requires
        year_in_calendar(year),
    ensures
        victoria_day_spec(year) is Some,
        victoria_day_spec(year)->Some_0.valid(),
        victoria_day_spec(year)->Some_0.weekday_spec() == Weekday::Mon,
        18 <= victoria_day_spec(year)->Some_0.day <= 24,
{
    let may_24 = Date { year, month: 5, day: 24 };
    let v = victoria_day_spec(year)->Some_0;
    assert(v.day_number() == may_24.day_number() - may_24.weekday_spec().index());
}

/// No Canadian holiday is observed in August.
pub proof fn lemma_canada_quiet_month(x: Date)
    requires
        x.valid(),
        x.month == 8,
    ensures
        !canada_holidays(x.year).contains(x),
{
    let year = x.year;
    lemma_observed_forward_in_month(Date { year, month: 1, day: 1 });
    lemma_observed_forward_in_month(Date { year, month: 7, day: 1 });
    lemma_observed_forward_in_month(Date { year, month: 12, day: 25 });
    lemma_plus_days_in_month(Date { year, month: 12, day: 26 }, 1);
    lemma_plus_days_in_month(Date { year, month: 12, day: 26 }, 2);
    crate::utils::easter::lemma_easter_neighbours(year as int);
}

/// All Canadian holidays of `year`.
pub fn get_canada_holidays(year: i32) -> (r: HolidaySet)
    requires
        year_in_calendar(year),
    ensures
        r@ == canada_holidays(year),
{
    let mut holidays = HolidaySet::new();
    let new_year = Date { year, month: 1, day: 1 };
    proof {
        lemma_observed_forward_in_month(new_year);
    }
    holidays.insert(adjust_for_weekend(new_year));
    if year >= 2008 {
        if let Some(date) = nth_weekday_of_month(year, 2, Weekday::Mon, 3) {
            holidays.insert(date);
        }
    }
    if let Ok(date) = calculate_good_friday(year) {
        holidays.insert(date);
    }
    if let Some(date) = victoria_day(year) {
        holidays.insert(date);
    }
    let canada_day = Date { year, month: 7, day: 1 };
    proof {
        lemma_observed_forward_in_month(canada_day);
    }
    holidays.insert(adjust_for_weekend(canada_day));
    if let Some(date) = nth_weekday_of_month(year, 9, Weekday::Mon, 1) {
        holidays.insert(date);
    }
    if let Some(date) = nth_weekday_of_month(year, 10, Weekday::Mon, 2) {
        holidays.insert(date);
    }
    let christmas = Date { year, month: 12, day: 25 };
    proof {
        lemma_observed_forward_in_month(christmas);
    }
    holidays.insert(adjust_for_weekend(christmas));
    let boxing = Date { year, month: 12, day: 26 };
    proof {
        lemma_observed_forward_in_month(boxing);
        lemma_plus_days_in_month(boxing, 2);
        lemma_plus_days_in_month(boxing, 1);
    }
    let observed = match (christmas.weekday(), boxing.weekday()) {
        (Weekday::Fri, Weekday::Sat) => boxing.add_days(2),
        (Weekday::Sat, Weekday::Sun) => boxing.add_days(2),
        (_, Weekday::Sat) => boxing.add_days(2),
        (_, Weekday::Sun) => boxing.add_days(1),
        _ => boxing,
    };
    holidays.insert(observed);
    holidays
}

/// Victoria Day of `year`: the Monday on or before May 24.
pub fn victoria_day(year: i32) -> (r: Option<Date>)
    ensures
        r == victoria_day_spec(year),
        r is Some ==> r->Some_0.valid() && r->Some_0.weekday_spec() == Weekday::Mon,
{
    let may_24 = match Date::from_ymd_opt(year, 5, 24) {
        Some(d) => d,
        None => {
            return None;
        },
    };
    proof {
        lemma_victoria_day(year);
    }
    let back = may_24.weekday().num_days_from_monday();
    Date::from_ymd_opt(year, 5, 24 - back)
}

/// Moves a holiday that falls on a Saturday or Sunday to the Monday
/// after, which has to lie within the calendar.
pub fn adjust_for_weekend(date: Date) -> (r: Date)
    requires
        date.valid(),
        date.weekday_spec() == Weekday::Sat ==> date.day_number() + 2
            <= crate::date::max_day_number(),
        date.weekday_spec() == Weekday::Sun ==> date.day_number() + 1
            <= crate::date::max_day_number(),
    ensures
        r == observed_forward(date),
        r.valid(),
{
    adjust_forward(date)
}

} // verus!
